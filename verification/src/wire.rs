//! The structured form in which a request is handed to a serializer: a tree
//! of named fields over booleans, numbers and texts.

use vstd::prelude::*;

verus! {

/// The mathematical content of a wire value.
#[verifier::ext_equal]
pub enum WireView {
    Bool(bool),
    Number(u64),
    Text(Seq<char>),
    Object(Seq<WireFieldView>),
}

/// The mathematical content of a named field.
#[verifier::ext_equal]
pub struct WireFieldView {
    pub name: Seq<char>,
    pub value: WireView,
}

/// A value on the wire.
#[derive(Debug, PartialEq, Eq)]
pub enum WireValue {
    Bool(bool),
    Number(u64),
    Text(String),
    /// An object: its fields, in the order in which they are written.
    Object(Vec<WireField>),
}

/// A named field of an object.
#[derive(Debug, PartialEq, Eq)]
pub struct WireField {
    pub name: String,
    pub value: WireValue,
}

impl View for WireValue {
    type V = WireView;

    open spec fn view(&self) -> WireView
        decreases self,
    {
        match self {
            WireValue::Bool(b) => WireView::Bool(*b),
            WireValue::Number(n) => WireView::Number(*n),
            WireValue::Text(s) => WireView::Text(s@),
            WireValue::Object(fields) => WireView::Object(fields_view(fields@)),
        }
    }
}

/// The fields of an object, each by its view.
pub open spec fn fields_view(fields: Seq<WireField>) -> Seq<WireFieldView>
    decreases fields,
{
    if fields.len() == 0 {
        Seq::empty()
    } else {
        fields_view(fields.drop_last()).push(
            WireFieldView { name: fields.last().name@, value: fields.last().value@ },
        )
    }
}

impl View for WireField {
    type V = WireFieldView;

    open spec fn view(&self) -> WireFieldView {
        WireFieldView { name: self.name@, value: self.value@ }
    }
}

/// The view of a list of fields has one entry for each field, in order.
pub proof fn lemma_fields_view(fields: Seq<WireField>)
    ensures
        fields_view(fields).len() == fields.len(),
        forall|i: int| 0 <= i < fields.len() ==> #[trigger] fields_view(fields)[i] == fields[i]@,
    decreases fields.len(),
{
    if fields.len() > 0 {
        lemma_fields_view(fields.drop_last());
        assert(fields_view(fields) == fields_view(fields.drop_last()).push(
            WireFieldView { name: fields.last().name@, value: fields.last().value@ },
        ));
    } else {
        assert(fields_view(fields) == Seq::<WireFieldView>::empty());
    }
}

/// A field that holds a text.
pub open spec fn text_field(name: Seq<char>, value: Seq<char>) -> WireFieldView {
    WireFieldView { name, value: WireView::Text(value) }
}

/// A field that holds a boolean.
pub open spec fn bool_field(name: Seq<char>, value: bool) -> WireFieldView {
    WireFieldView { name, value: WireView::Bool(value) }
}

/// A field that holds a number.
pub open spec fn number_field(name: Seq<char>, value: u64) -> WireFieldView {
    WireFieldView { name, value: WireView::Number(value) }
}

/// A field that holds an object.
pub open spec fn object_field(name: Seq<char>, fields: Seq<WireFieldView>) -> WireFieldView {
    WireFieldView { name, value: WireView::Object(fields) }
}

impl WireField {
    pub(crate) fn text(name: &str, value: &String) -> (f: WireField)
        ensures
            f@ == text_field(name@, value@),
    {
        WireField { name: String::from_str(name), value: WireValue::Text(value.clone()) }
    }

    pub(crate) fn bool(name: &str, value: bool) -> (f: WireField)
        ensures
            f@ == bool_field(name@, value),
    {
        WireField { name: String::from_str(name), value: WireValue::Bool(value) }
    }

    pub(crate) fn number(name: &str, value: u64) -> (f: WireField)
        ensures
            f@ == number_field(name@, value),
    {
        WireField { name: String::from_str(name), value: WireValue::Number(value) }
    }

    pub(crate) fn object(name: &str, fields: Vec<WireField>) -> (f: WireField)
        ensures
            f@ == object_field(name@, fields_view(fields@)),
    {
        WireField { name: String::from_str(name), value: WireValue::object(fields) }
    }
}

impl WireValue {
    /// The object with these fields, in this order.
    pub(crate) fn object(fields: Vec<WireField>) -> (w: WireValue)
        ensures
            w@ == WireView::Object(fields_view(fields@)),
    {
        WireValue::Object(fields)
    }
}

/// Whether the field at index `i` is the first one called `name`.
pub open spec fn is_first_named(fields: Seq<WireFieldView>, name: Seq<char>, i: int) -> bool {
    &&& 0 <= i < fields.len()
    &&& fields[i].name == name
    &&& forall|j: int| 0 <= j < i ==> fields[j].name != name
}

/// The value of the first field called `name`, if there is one.
pub open spec fn lookup(fields: Seq<WireFieldView>, name: Seq<char>) -> Option<WireView> {
    if exists|i: int| is_first_named(fields, name, i) {
        Some(fields[choose|i: int| is_first_named(fields, name, i)].value)
    } else {
        None
    }
}

impl WireView {
    /// The value of the first field called `name` of an object; nothing for
    /// a value that is no object or has no such field.
    pub open spec fn field(self, name: Seq<char>) -> Option<WireView> {
        match self {
            WireView::Object(fields) => lookup(fields, name),
            _ => None,
        }
    }
}

/// At most one index holds the first field of a name, so finding one settles
/// the lookup.
pub proof fn lemma_lookup_first(fields: Seq<WireFieldView>, name: Seq<char>, i: int)
    requires
        is_first_named(fields, name, i),
    ensures
        lookup(fields, name) == Some(fields[i].value),
{
    let c = choose|c: int| is_first_named(fields, name, c);
    assert(c == i) by {
        if c < i {
            assert(fields[c].name != name);
        }
        if i < c {
            assert(fields[i].name != name);
        }
    }
}

impl WireValue {
    /// Reads the first field called `name` of an object.
    pub fn field(&self, name: &str) -> (r: Option<&WireValue>)
        ensures
            match r {
                Some(value) => self@.field(name@) == Some(value@),
                None => self@.field(name@) is None,
            },
    {
        match self {
            WireValue::Object(fields) => {
                let wanted = String::from_str(name);
                let ghost views = fields_view(fields@);
                proof {
                    lemma_fields_view(fields@);
                }
                let mut i: usize = 0;
                while i < fields.len()
                    invariant
                        i <= fields.len(),
                        wanted@ == name@,
                        self@ == WireView::Object(views),
                        views.len() == fields@.len(),
                        forall|k: int| 0 <= k < fields@.len() ==> views[k] == fields@[k]@,
                        forall|j: int| 0 <= j < i ==> views[j].name != name@,
                    decreases fields.len() - i,
                {
                    if fields[i].name == wanted {
                        proof {
                            lemma_lookup_first(views, name@, i as int);
                        }
                        return Some(&fields[i].value);
                    }
                    i = i + 1;
                }
                None
            },
            _ => None,
        }
    }
}

} // verus!
