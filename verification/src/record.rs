//! What the host writes down: entries of an agent's signed log, and the
//! named fields that a reader of the control plane is shown.
use crate::charter::Delivery;
use crate::text::{opt_view, views};
use crate::time::{opt_at, Moment};
use vstd::prelude::*;

verus! {

/// A value under a name.
#[derive(Debug, PartialEq, Eq)]
pub enum Detail {
    Null,
    Text(String),
    Texts(Vec<String>),
    Count(u64),
    Flag(bool),
    Time(Moment),
    /// A number of single precision, by its bits.
    Single(u32),
    /// A value that is already JSON.
    Json(String),
    /// Values that are already JSON.
    Jsons(Vec<String>),
    /// An object that holds this text under `error`.
    Failure(String),
    /// Where a run's text goes.
    Targets(Vec<Delivery>),
}

/// A value under a name, as values.
pub enum DetailModel {
    Null,
    Text(Seq<char>),
    Texts(Seq<Seq<char>>),
    Count(int),
    Flag(bool),
    Time(int),
    Single(u32),
    Json(Seq<char>),
    Jsons(Seq<Seq<char>>),
    Failure(Seq<char>),
    Targets(Seq<Delivery>),
}

impl View for Detail {
    type V = DetailModel;

    open spec fn view(&self) -> DetailModel {
        match self {
            Detail::Null => DetailModel::Null,
            Detail::Text(s) => DetailModel::Text(s@),
            Detail::Texts(l) => DetailModel::Texts(views(l@)),
            Detail::Count(n) => DetailModel::Count(*n as int),
            Detail::Flag(b) => DetailModel::Flag(*b),
            Detail::Time(m) => DetailModel::Time(m@),
            Detail::Single(bits) => DetailModel::Single(*bits),
            Detail::Json(s) => DetailModel::Json(s@),
            Detail::Jsons(l) => DetailModel::Jsons(views(l@)),
            Detail::Failure(s) => DetailModel::Failure(s@),
            Detail::Targets(l) => DetailModel::Targets(l@),
        }
    }
}

/// The value of an optional text: the text, or null.
pub open spec fn text_or_null(o: Option<Seq<char>>) -> DetailModel {
    match o {
        Some(s) => DetailModel::Text(s),
        None => DetailModel::Null,
    }
}

/// The value of an optional moment: the moment, or null.
pub open spec fn time_or_null(o: Option<int>) -> DetailModel {
    match o {
        Some(t) => DetailModel::Time(t),
        None => DetailModel::Null,
    }
}

/// Named values, in the order they were put down.
#[derive(Debug, PartialEq, Eq)]
pub struct Fields {
    pub items: Vec<(String, Detail)>,
}

impl View for Fields {
    type V = Seq<(Seq<char>, DetailModel)>;

    open spec fn view(&self) -> Seq<(Seq<char>, DetailModel)> {
        self.items@.map_values(|item: (String, Detail)| (item.0@, item.1@))
    }
}

impl Fields {
    pub fn new() -> (r: Fields)
        ensures
            r@ == Seq::<(Seq<char>, DetailModel)>::empty(),
    {
        let r = Fields { items: Vec::new() };
        assert(r@ == Seq::<(Seq<char>, DetailModel)>::empty());
        r
    }

    pub fn put(&mut self, name: &str, value: Detail)
        ensures
            final(self)@ == old(self)@.push((name@, value@)),
    {
        self.items.push((name.to_owned(), value));
        assert(self@ == old(self)@.push((name@, value@)));
    }

    pub fn text(&mut self, name: &str, value: &str)
        ensures
            final(self)@ == old(self)@.push((name@, DetailModel::Text(value@))),
    {
        self.put(name, Detail::Text(value.to_owned()));
    }

    pub fn opt_text(&mut self, name: &str, value: &Option<String>)
        ensures
            final(self)@ == old(self)@.push((name@, text_or_null(opt_view(*value)))),
    {
        match value {
            Some(s) => self.text(name, s.as_str()),
            None => self.put(name, Detail::Null),
        }
    }

    pub fn texts(&mut self, name: &str, value: &Vec<String>)
        ensures
            final(self)@ == old(self)@.push((name@, DetailModel::Texts(views(value@)))),
    {
        let list = crate::text::copy_list(value);
        self.put(name, Detail::Texts(list));
    }

    pub fn count(&mut self, name: &str, value: u64)
        ensures
            final(self)@ == old(self)@.push((name@, DetailModel::Count(value as int))),
    {
        self.put(name, Detail::Count(value));
    }

    pub fn flag(&mut self, name: &str, value: bool)
        ensures
            final(self)@ == old(self)@.push((name@, DetailModel::Flag(value))),
    {
        self.put(name, Detail::Flag(value));
    }

    pub fn opt_time(&mut self, name: &str, value: Option<Moment>)
        ensures
            final(self)@ == old(self)@.push(
                (name@, time_or_null(opt_at(value))),
            ),
    {
        match value {
            Some(m) => self.put(name, Detail::Time(m)),
            None => self.put(name, Detail::Null),
        }
    }
}

/// An entry of an agent's signed log. What a run cost is not known here.
#[derive(Debug, PartialEq, Eq)]
pub struct LogEntry {
    pub action: String,
    pub model: Option<String>,
    pub harness: Option<String>,
    pub outcome: String,
    pub detail: Fields,
}

/// An entry of the log, as values.
pub struct EntryModel {
    pub action: Seq<char>,
    pub model: Option<Seq<char>>,
    pub harness: Option<Seq<char>>,
    pub outcome: Seq<char>,
    pub detail: Seq<(Seq<char>, DetailModel)>,
}

impl View for LogEntry {
    type V = EntryModel;

    open spec fn view(&self) -> EntryModel {
        EntryModel {
            action: self.action@,
            model: opt_view(self.model),
            harness: opt_view(self.harness),
            outcome: self.outcome@,
            detail: self.detail@,
        }
    }
}

/// One parameter of a tool, as its caller is told of it.
#[derive(Debug, PartialEq, Eq)]
pub struct ToolParam {
    pub name: &'static str,
    /// The JSON type: `string`, `integer`, `boolean`, or `array` of strings.
    pub kind: &'static str,
    /// Empty where the name says enough.
    pub description: &'static str,
    pub required: bool,
}

/// A parameter as values.
pub struct ParamModel {
    pub name: Seq<char>,
    pub kind: Seq<char>,
    pub description: Seq<char>,
    pub required: bool,
}

impl View for ToolParam {
    type V = ParamModel;

    open spec fn view(&self) -> ParamModel {
        ParamModel {
            name: self.name@,
            kind: self.kind@,
            description: self.description@,
            required: self.required,
        }
    }
}

/// What a model is told of a tool.
#[derive(Debug, PartialEq, Eq)]
pub struct ToolDef {
    pub name: String,
    pub description: String,
    pub params: Vec<ToolParam>,
}

impl ToolDef {
    /// The parameters as values.
    pub open spec fn param_models(&self) -> Seq<ParamModel> {
        self.params@.map_values(|p: ToolParam| p@)
    }
}

} // verus!
