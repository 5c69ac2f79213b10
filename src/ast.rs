//! The document tree that the parser builds and the resolver reads.
use vstd::prelude::*;
use crate::number::Number;
use crate::grammar::DModel;

verus! {

/// A configuration value.
#[derive(Debug, PartialEq)]
pub enum Value {
    String(String),
    Number(Number),
    Bool(bool),
    /// The source text of a regular expression.
    Regex(String),
    Array(Vec<Value>),
    Object(Vec<ObjectItem>),
    /// A dotted path to another value, such as `defaults.server.host`.
    Reference(Vec<String>),
    Interpolated(Vec<Value>),
    Conditional(Box<ConditionalValue>),
    Null,
}

/// `if condition then_value else else_value`, chosen at resolution.
#[derive(Debug, PartialEq)]
pub struct ConditionalValue {
    pub condition: Condition,
    pub then_value: Value,
    pub else_value: Option<Value>,
}

/// One entry of an object: a field, or a group of fields under a condition.
#[derive(Debug, PartialEq)]
pub enum ObjectItem {
    Assign(String, Value),
    IfBlock(Box<IfBlock>),
}

/// `if condition: ... else: ... endif` inside an object.
#[derive(Debug, PartialEq)]
pub struct IfBlock {
    pub condition: Condition,
    pub then_items: Vec<ObjectItem>,
    pub else_items: Option<Vec<ObjectItem>>,
}

/// A test on the value at a dotted path.
#[derive(Debug, PartialEq)]
pub enum Condition {
    Equals(Vec<String>, Value),
    NotEquals(Vec<String>, Value),
    Exists(Vec<String>),
    NotExists(Vec<String>),
}

/// The parsed form of one configuration source.
#[derive(Debug, PartialEq)]
pub struct Document {
    /// Top-level blocks.
    pub items: Vec<(String, Value)>,
    /// `@key value` lines.
    pub metadata: Vec<(String, Value)>,
    /// Top-level assignments.
    pub globals: Vec<(String, Value)>,
}

// ---------------------------------------------------------------------------
// Models: the same trees over sequences, for contracts.

pub type Text = Seq<char>;

pub enum VModel {
    Str(Text),
    Num(Seq<u8>, Seq<u8>),
    Bool(bool),
    Regex(Text),
    Array(Seq<VModel>),
    Object(Seq<IModel>),
    Reference(Seq<Text>),
    Interpolated(Seq<VModel>),
    Conditional(Box<CModel>, Box<VModel>, Option<Box<VModel>>),
    Null,
}

pub enum IModel {
    Assign(Text, VModel),
    IfBlock(CModel, Seq<IModel>, Option<Seq<IModel>>),
}

pub enum CModel {
    Equals(Seq<Text>, VModel),
    NotEquals(Seq<Text>, VModel),
    Exists(Seq<Text>),
    NotExists(Seq<Text>),
}

pub open spec fn texts(v: Seq<String>) -> Seq<Text> {
    v.map_values(|s: String| s@)
}

impl Value {
    pub open spec fn model(&self) -> VModel
        decreases self,
    {
        match self {
            Value::String(s) => VModel::Str(s@),
            Value::Number(n) => VModel::Num(n.whole@, n.fraction@),
            Value::Bool(b) => VModel::Bool(*b),
            Value::Regex(s) => VModel::Regex(s@),
            Value::Array(vs) => VModel::Array(values_model(vs@)),
            Value::Object(items) => VModel::Object(items_model(items@)),
            Value::Reference(p) => VModel::Reference(texts(p@)),
            Value::Interpolated(vs) => VModel::Interpolated(values_model(vs@)),
            Value::Conditional(c) => VModel::Conditional(
                Box::new(c.condition.model()),
                Box::new(c.then_value.model()),
                match &c.else_value {
                    Some(e) => Some(Box::new(e.model())),
                    None => None,
                },
            ),
            Value::Null => VModel::Null,
        }
    }
}

pub open spec fn values_model(vs: Seq<Value>) -> Seq<VModel>
    decreases vs,
{
    Seq::new(vs.len(), |i: int| if 0 <= i < vs.len() { vs[i].model() } else { VModel::Null })
}

pub open spec fn items_model(items: Seq<ObjectItem>) -> Seq<IModel>
    decreases items,
{
    Seq::new(items.len(), |i: int| if 0 <= i < items.len() { items[i].model() } else { IModel::IfBlock(CModel::Exists(Seq::empty()), Seq::empty(), None) })
}

impl ObjectItem {
    pub open spec fn model(&self) -> IModel
        decreases self,
    {
        match self {
            ObjectItem::Assign(k, v) => IModel::Assign(k@, v.model()),
            ObjectItem::IfBlock(b) => IModel::IfBlock(
                b.condition.model(),
                items_model(b.then_items@),
                match &b.else_items {
                    Some(e) => Some(items_model(e@)),
                    None => None,
                },
            ),
        }
    }
}

impl Condition {
    pub open spec fn model(&self) -> CModel
        decreases self,
    {
        match self {
            Condition::Equals(p, v) => CModel::Equals(texts(p@), v.model()),
            Condition::NotEquals(p, v) => CModel::NotEquals(texts(p@), v.model()),
            Condition::Exists(p) => CModel::Exists(texts(p@)),
            Condition::NotExists(p) => CModel::NotExists(texts(p@)),
        }
    }
}

impl Value {
    /// The items of an object value.
    pub fn as_object(&self) -> (r: Option<&Vec<ObjectItem>>)
        ensures
            match self {
                Value::Object(items) => r == Some(items),
                _ => r is None,
            },
    {
        match self {
            Value::Object(items) => Some(items),
            _ => None,
        }
    }
}

pub open spec fn entries_model(v: Seq<(String, Value)>) -> Seq<(Text, VModel)> {
    Seq::new(v.len(), |i: int| (v[i].0@, v[i].1.model()))
}

impl Document {
    pub open spec fn model(&self) -> DModel {
        DModel {
            items: entries_model(self.items@),
            metadata: entries_model(self.metadata@),
            globals: entries_model(self.globals@),
        }
    }
}

pub proof fn lemma_values_push(v: Seq<Value>, x: Value)
    ensures
        values_model(v.push(x)) == values_model(v).push(x.model()),
{
    assert(values_model(v.push(x)) =~= values_model(v).push(x.model()));
}

pub proof fn lemma_items_push(v: Seq<ObjectItem>, x: ObjectItem)
    ensures
        items_model(v.push(x)) == items_model(v).push(x.model()),
{
    assert(items_model(v.push(x)) =~= items_model(v).push(x.model()));
}

pub proof fn lemma_entries_push(v: Seq<(String, Value)>, k: String, x: Value)
    ensures
        entries_model(v.push((k, x))) == entries_model(v).push((k@, x.model())),
{
    assert(entries_model(v.push((k, x))) =~= entries_model(v).push((k@, x.model())));
}

pub proof fn lemma_texts_push(v: Seq<String>, x: String)
    ensures
        texts(v.push(x)) == texts(v).push(x@),
{
    assert(texts(v.push(x)) =~= texts(v).push(x@));
}

} // verus!
