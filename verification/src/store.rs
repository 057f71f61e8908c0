//! Values and requests exchanged with the key-value store.

use vstd::prelude::*;

verus! {

/// A value stored under an attribute name.
#[derive(Debug, PartialEq, Eq)]
pub enum Attr {
    /// A string.
    S(String),
    /// A whole number, written in decimal.
    N(String),
    /// A truth value.
    Bool(bool),
    /// A list of values.
    L(Vec<Attr>),
    /// A record of named values.
    M(Vec<Field>),
}

/// A named value inside a record.
#[derive(Debug, PartialEq, Eq)]
pub struct Field {
    pub name: String,
    pub value: Attr,
}

/// Mathematical model of an [`Attr`].
pub enum AttrView {
    S(Seq<char>),
    N(Seq<char>),
    Bool(bool),
    L(Seq<AttrView>),
    M(Seq<FieldView>),
}

/// Mathematical model of a [`Field`].
pub struct FieldView {
    pub name: Seq<char>,
    pub value: AttrView,
}

impl View for Attr {
    type V = AttrView;

    open spec fn view(&self) -> AttrView
        decreases self,
    {
        match self {
            Attr::S(s) => AttrView::S(s@),
            Attr::N(n) => AttrView::N(n@),
            Attr::Bool(b) => AttrView::Bool(*b),
            Attr::L(items) => AttrView::L(
                Seq::new(
                    items@.len(),
                    |i: int|
                        if 0 <= i < items@.len() {
                            items@[i].view()
                        } else {
                            AttrView::Bool(false)
                        },
                ),
            ),
            Attr::M(fields) => AttrView::M(
                Seq::new(
                    fields@.len(),
                    |i: int|
                        if 0 <= i < fields@.len() {
                            FieldView { name: fields@[i].name@, value: fields@[i].value.view() }
                        } else {
                            FieldView { name: Seq::empty(), value: AttrView::Bool(false) }
                        },
                ),
            ),
        }
    }
}

impl View for Field {
    type V = FieldView;

    open spec fn view(&self) -> FieldView {
        FieldView { name: self.name@, value: self.value@ }
    }
}

/// The views of a list of values.
pub open spec fn attrs_view(items: Seq<Attr>) -> Seq<AttrView> {
    Seq::new(items.len(), |i: int| items[i]@)
}

/// The views of a list of fields.
pub open spec fn fields_view(fields: Seq<Field>) -> Seq<FieldView> {
    Seq::new(fields.len(), |i: int| fields[i]@)
}

/// The view of a list is the list of views.
pub proof fn lemma_list_view(items: Vec<Attr>)
    ensures
        Attr::L(items)@ == AttrView::L(attrs_view(items@)),
{
    reveal_with_fuel(<Attr as View>::view, 2);
    assert(Attr::L(items)@->L_0 =~= attrs_view(items@));
}

/// The view of a record is the list of its fields' views.
pub proof fn lemma_record_view(fields: Vec<Field>)
    ensures
        Attr::M(fields)@ == AttrView::M(fields_view(fields@)),
{
    reveal_with_fuel(<Attr as View>::view, 2);
    assert(Attr::M(fields)@->M_0 =~= fields_view(fields@));
}

/// Whether `at` is the place of the first field called `name`.
pub open spec fn is_field_at(fields: Seq<FieldView>, name: Seq<char>, at: int) -> bool {
    &&& 0 <= at < fields.len()
    &&& fields[at].name == name
    &&& forall|j: int| 0 <= j < at ==> (#[trigger] fields[j]).name != name
}

/// The value of the first field called `name`, if there is one.
pub open spec fn lookup(fields: Seq<FieldView>, name: Seq<char>) -> Option<AttrView> {
    if exists|at: int| is_field_at(fields, name, at) {
        Some(fields[choose|at: int| is_field_at(fields, name, at)].value)
    } else {
        None
    }
}

/// The first field called `name` is the one that `lookup` finds.
pub proof fn lemma_lookup_at(fields: Seq<FieldView>, name: Seq<char>, at: int)
    requires
        is_field_at(fields, name, at),
    ensures
        lookup(fields, name) == Some(fields[at].value),
{
    let chosen = choose|c: int| is_field_at(fields, name, c);
    if chosen < at {
        assert(fields[chosen].name != name);
    } else if at < chosen {
        assert(fields[at].name != name);
    }
}

/// Where no field is called `name`, `lookup` finds nothing.
pub proof fn lemma_lookup_none(fields: Seq<FieldView>, name: Seq<char>)
    requires
        forall|j: int| 0 <= j < fields.len() ==> (#[trigger] fields[j]).name != name,
    ensures
        lookup(fields, name) is None,
{
}

/// Whether `b` holds what `a` holds, whatever the order of the fields in
/// their records: strings, numbers and flags are the same, lists are alike
/// entry by entry, and two records have the same names and, under each name,
/// values that are alike.
pub open spec fn alike(a: AttrView, b: AttrView) -> bool
    decreases a,
{
    match a {
        AttrView::S(_) => b == a,
        AttrView::N(_) => b == a,
        AttrView::Bool(_) => b == a,
        AttrView::L(x) => b is L && b->L_0.len() == x.len() && forall|i: int|
            0 <= i < x.len() ==> alike(#[trigger] x[i], b->L_0[i]),
        AttrView::M(x) => b is M && (forall|i: int|
            0 <= i < x.len() && is_field_at(x, (#[trigger] x[i]).name, i) ==> exists|j: int|
                is_field_at(b->M_0, x[i].name, j) && alike(x[i].value, (#[trigger] b->M_0[j]).value))
            && (forall|j: int|
            0 <= j < b->M_0.len() ==> exists|i: int|
                0 <= i < x.len() && (#[trigger] x[i]).name == (#[trigger] b->M_0[j]).name),
    }
}

/// Where a field is called `name`, a first field is.
pub proof fn lemma_first_field(fields: Seq<FieldView>, name: Seq<char>, at: int)
    requires
        0 <= at < fields.len(),
        fields[at].name == name,
    ensures
        exists|first: int| is_field_at(fields, name, first),
    decreases at,
{
    if exists|j: int| 0 <= j < at && (#[trigger] fields[j]).name == name {
        let j = choose|j: int| 0 <= j < at && (#[trigger] fields[j]).name == name;
        lemma_first_field(fields, name, j);
    } else {
        assert(is_field_at(fields, name, at));
    }
}

/// Records that are alike hold values that are alike under every name.
pub proof fn lemma_lookup_alike(x: Seq<FieldView>, y: Seq<FieldView>, name: Seq<char>)
    requires
        alike(AttrView::M(x), AttrView::M(y)),
    ensures
        match lookup(x, name) {
            Some(value) => lookup(y, name) is Some && alike(value, lookup(y, name)->Some_0),
            None => lookup(y, name) is None,
        },
{
    if exists|at: int| is_field_at(x, name, at) {
        let i = choose|at: int| is_field_at(x, name, at);
        assert(is_field_at(x, x[i].name, i));
        let j = choose|j: int|
            is_field_at(y, x[i].name, j) && alike(x[i].value, (#[trigger] y[j]).value);
        lemma_lookup_at(y, name, j);
    } else if exists|at: int| is_field_at(y, name, at) {
        let j = choose|at: int| is_field_at(y, name, at);
        let i = choose|i: int| 0 <= i < x.len() && (#[trigger] x[i]).name == (#[trigger] y[j]).name;
        lemma_first_field(x, name, i);
    }
}

/// A field with the given name and value.
pub open spec fn named(name: Seq<char>, value: AttrView) -> FieldView {
    FieldView { name, value }
}

/// The first field called `name`, if there is one.
pub fn find_field<'a>(fields: &'a Vec<Field>, name: &str) -> (found: Option<&'a Attr>)
    ensures
        match found {
            Some(value) => lookup(fields_view(fields@), name@) == Some(value@),
            None => lookup(fields_view(fields@), name@) is None,
        },
{
    let wanted = name.to_owned();
    let mut i: usize = 0;
    while i < fields.len()
        invariant
            i <= fields.len(),
            wanted@ == name@,
            forall|j: int| 0 <= j < i ==> (#[trigger] fields_view(fields@)[j]).name != name@,
        decreases fields.len() - i,
    {
        if fields[i].name == wanted {
            proof {
                assert(fields_view(fields@)[i as int].name == name@);
                lemma_lookup_at(fields_view(fields@), name@, i as int);
            }
            return Some(&fields[i].value);
        }
        i += 1;
    }
    proof {
        lemma_lookup_none(fields_view(fields@), name@);
    }
    None
}

/// A field with the given name and value.
pub fn field(name: &str, value: Attr) -> (made: Field)
    ensures
        made@ == named(name@, value@),
{
    Field { name: name.to_owned(), value }
}

/// Mathematical model of a [`PutRequest`].
pub struct PutRequestView {
    pub table_name: Seq<char>,
    pub item: Seq<FieldView>,
}

/// The request to store an item, replacing any item with the same key.
#[derive(Debug, PartialEq, Eq)]
pub struct PutRequest {
    pub table_name: String,
    pub item: Vec<Field>,
}

impl View for PutRequest {
    type V = PutRequestView;

    open spec fn view(&self) -> PutRequestView {
        PutRequestView { table_name: self.table_name@, item: fields_view(self.item@) }
    }
}

/// Mathematical model of an [`UpdateRequest`].
pub struct UpdateRequestView {
    pub table_name: Seq<char>,
    pub key: Seq<FieldView>,
    pub update_expression: Seq<char>,
    pub condition_expression: Seq<char>,
    pub expression_attribute_values: Seq<FieldView>,
}

/// The request to change one item, committed only if the condition holds of
/// the stored item at write time.
#[derive(Debug, PartialEq, Eq)]
pub struct UpdateRequest {
    pub table_name: String,
    pub key: Vec<Field>,
    pub update_expression: String,
    pub condition_expression: String,
    pub expression_attribute_values: Vec<Field>,
}

impl View for UpdateRequest {
    type V = UpdateRequestView;

    open spec fn view(&self) -> UpdateRequestView {
        UpdateRequestView {
            table_name: self.table_name@,
            key: fields_view(self.key@),
            update_expression: self.update_expression@,
            condition_expression: self.condition_expression@,
            expression_attribute_values: fields_view(self.expression_attribute_values@),
        }
    }
}

/// Mathematical model of a [`ScanRequest`].
pub struct ScanRequestView {
    pub table_name: Seq<char>,
    pub filter_expression: Seq<char>,
    pub expression_attribute_values: Seq<FieldView>,
}

/// The request for every item that passes a filter.
#[derive(Debug, PartialEq, Eq)]
pub struct ScanRequest {
    pub table_name: String,
    pub filter_expression: String,
    pub expression_attribute_values: Vec<Field>,
}

impl View for ScanRequest {
    type V = ScanRequestView;

    open spec fn view(&self) -> ScanRequestView {
        ScanRequestView {
            table_name: self.table_name@,
            filter_expression: self.filter_expression@,
            expression_attribute_values: fields_view(self.expression_attribute_values@),
        }
    }
}

/// Mathematical model of a [`StoreConfig`].
pub struct StoreConfigView {
    pub region: Seq<char>,
    pub endpoint: Seq<char>,
    pub access_key_id: Seq<char>,
    pub secret_access_key: Seq<char>,
}

/// Where the store is and how to sign in, handed to whoever opens the
/// connection.
#[derive(Clone, Debug, PartialEq, Eq)]
pub struct StoreConfig {
    pub region: String,
    pub endpoint: String,
    pub access_key_id: String,
    pub secret_access_key: String,
}

impl View for StoreConfig {
    type V = StoreConfigView;

    open spec fn view(&self) -> StoreConfigView {
        StoreConfigView {
            region: self.region@,
            endpoint: self.endpoint@,
            access_key_id: self.access_key_id@,
            secret_access_key: self.secret_access_key@,
        }
    }
}

impl StoreConfig {
    /// The store of a development machine.
    pub fn local() -> (config: StoreConfig)
        ensures
            config@ == (StoreConfigView {
                region: "us-east-2"@,
                endpoint: "http://localhost:8000"@,
                access_key_id: "123"@,
                secret_access_key: "xyz"@,
            }),
    {
        StoreConfig {
            region: "us-east-2".to_owned(),
            endpoint: "http://localhost:8000".to_owned(),
            access_key_id: "123".to_owned(),
            secret_access_key: "xyz".to_owned(),
        }
    }
}

} // verus!
