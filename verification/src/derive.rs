//! Deriving the protocol for a record type from its declaration: which
//! fields are laid out, under which labels, and with which logical types.

use crate::field::{Field, FieldView};
use crate::persist::{push_cell, push_leaf, single_leaf, Persistable};
use crate::row::RowBuffer;
use crate::schema::{leaf_views, utc_timestamp, Leaf, LogicalType, PhysicalType, Repetition, TimeUnit};
use crate::text::{
    child_name, child_name_chars, decimal, decimal_chars, joined, opt_chars, str_eq, string_views,
};
use vstd::prelude::*;

verus! {

/// A literal in an attribute.
#[derive(Debug)]
pub enum Lit {
    Bool(bool),
    Str(String),
    Other,
}

/// An item of an attribute's list: a name with a literal, or anything else.
#[derive(Debug)]
pub enum NestedMeta {
    NameValue { path: String, lit: Lit },
    Other,
}

/// What an attribute holds: a list of items, or anything else.
#[derive(Debug)]
pub enum Meta {
    List(Vec<NestedMeta>),
    Other,
}

/// An attribute on a field.
#[derive(Debug)]
pub struct Attribute {
    pub path: String,
    pub meta: Meta,
}

/// A field of a record as declared. A field of a tuple record has no name.
#[derive(Debug)]
pub struct FieldDecl {
    pub ident: Option<String>,
    pub ty: String,
    pub attrs: Vec<Attribute>,
}

/// The fields of a record or of a variant.
#[derive(Debug)]
pub enum Fields {
    Named(Vec<FieldDecl>),
    Unnamed(Vec<FieldDecl>),
    Unit,
}

/// A variant of a tagged type.
#[derive(Debug)]
pub struct Variant {
    pub ident: String,
    pub fields: Fields,
}

/// The body of a declared type.
#[derive(Debug)]
pub enum Data {
    Struct(Fields),
    Enum(Vec<Variant>),
    Union,
}

/// A declared type.
#[derive(Debug)]
pub struct DeriveInput {
    pub ident: String,
    pub data: Data,
}

/// The logical type that a field's attributes declare.
#[derive(Clone, Copy, Debug, PartialEq, Eq, Structural)]
pub enum DeclaredType {
    Timestamp(TimeUnit),
}

/// What the attributes of a field say.
#[derive(Clone, Copy, Debug, PartialEq, Eq, Structural)]
pub struct PersistAttributes {
    pub ignore: bool,
    pub logical_type: Option<DeclaredType>,
}

/// The unit that a text names.
pub open spec fn unit_named(text: Seq<char>) -> Option<DeclaredType> {
    if text == "ns"@ {
        Some(DeclaredType::Timestamp(TimeUnit::Nanos))
    } else if text == "ms"@ {
        Some(DeclaredType::Timestamp(TimeUnit::Millis))
    } else if text == "us"@ {
        Some(DeclaredType::Timestamp(TimeUnit::Micros))
    } else {
        None
    }
}

/// What an item of a `persist` list does to `ignore`: `ignore = b` sets it
/// to `b`, anything else leaves it.
pub open spec fn item_ignore(item: NestedMeta, before: bool) -> bool {
    match item {
        NestedMeta::NameValue { path, lit: Lit::Bool(b) } => if path@ == "ignore"@ {
            b
        } else {
            before
        },
        _ => before,
    }
}

/// What an item of a `persist_timestamp` list does to the logical type:
/// `unit = "text"` sets it to the unit named, or to none if the text names
/// no unit; anything else leaves it.
pub open spec fn item_unit(item: NestedMeta, before: Option<DeclaredType>) -> Option<DeclaredType> {
    match item {
        NestedMeta::NameValue { path, lit: Lit::Str(text) } => if path@ == "unit"@ {
            unit_named(text@)
        } else {
            before
        },
        _ => before,
    }
}

/// `ignore` after the items of a list, in order.
pub open spec fn list_ignore(items: Seq<NestedMeta>, before: bool) -> bool
    decreases items.len(),
{
    if items.len() == 0 {
        before
    } else {
        item_ignore(items.last(), list_ignore(items.drop_last(), before))
    }
}

/// The logical type after the items of a list, in order.
pub open spec fn list_unit(items: Seq<NestedMeta>, before: Option<DeclaredType>) -> Option<
    DeclaredType,
>
    decreases items.len(),
{
    if items.len() == 0 {
        before
    } else {
        item_unit(items.last(), list_unit(items.drop_last(), before))
    }
}

/// What one attribute does to the settings: a `persist` list sets
/// `ignore`, a `persist_timestamp` list sets the logical type.
pub open spec fn attribute_applied(attr: Attribute, before: PersistAttributes) -> PersistAttributes {
    match attr.meta {
        Meta::List(items) => PersistAttributes {
            ignore: if attr.path@ == "persist"@ {
                list_ignore(items@, before.ignore)
            } else {
                before.ignore
            },
            logical_type: if attr.path@ == "persist_timestamp"@ {
                list_unit(items@, before.logical_type)
            } else {
                before.logical_type
            },
        },
        Meta::Other => before,
    }
}

/// What the attributes of a field say: nothing is ignored and no logical
/// type is declared unless an attribute says so, and a later setting
/// replaces an earlier one.
pub open spec fn attributes_parsed(attrs: Seq<Attribute>) -> PersistAttributes
    decreases attrs.len(),
{
    if attrs.len() == 0 {
        PersistAttributes { ignore: false, logical_type: None }
    } else {
        attribute_applied(attrs.last(), attributes_parsed(attrs.drop_last()))
    }
}

/// The unit that a text names.
fn parse_unit(text: &str) -> (unit: Option<DeclaredType>)
    ensures
        unit == unit_named(text@),
{
    if str_eq(text, "ns") {
        Some(DeclaredType::Timestamp(TimeUnit::Nanos))
    } else if str_eq(text, "ms") {
        Some(DeclaredType::Timestamp(TimeUnit::Millis))
    } else if str_eq(text, "us") {
        Some(DeclaredType::Timestamp(TimeUnit::Micros))
    } else {
        None
    }
}

/// Reads the settings off the attributes of a field.
pub fn parse_persist_attributes(attrs: &Vec<Attribute>) -> (parsed: PersistAttributes)
    ensures
        parsed == attributes_parsed(attrs@),
{
    let mut parsed = PersistAttributes { ignore: false, logical_type: None };
    let mut i: usize = 0;
    assert(attrs@.take(0) =~= Seq::<Attribute>::empty());
    while i < attrs.len()
        invariant
            i <= attrs.len(),
            parsed == attributes_parsed(attrs@.take(i as int)),
        decreases attrs.len() - i,
    {
        let attr = &attrs[i];
        let ghost before = parsed;
        let is_persist = str_eq(attr.path.as_str(), "persist");
        let is_timestamp = str_eq(attr.path.as_str(), "persist_timestamp");
        match &attr.meta {
            Meta::List(items) => {
                let mut j: usize = 0;
                assert(items@.take(0) =~= Seq::<NestedMeta>::empty());
                while j < items.len()
                    invariant
                        j <= items.len(),
                        parsed.ignore == if is_persist {
                            list_ignore(items@.take(j as int), before.ignore)
                        } else {
                            before.ignore
                        },
                        parsed.logical_type == if is_timestamp {
                            list_unit(items@.take(j as int), before.logical_type)
                        } else {
                            before.logical_type
                        },
                    decreases items.len() - j,
                {
                    proof {
                        assert(items@.take(j + 1).drop_last() =~= items@.take(j as int));
                    }
                    match &items[j] {
                        NestedMeta::NameValue { path, lit } => {
                            match lit {
                                Lit::Bool(b) => {
                                    if is_persist && str_eq(path.as_str(), "ignore") {
                                        parsed.ignore = *b;
                                    }
                                },
                                Lit::Str(text) => {
                                    if is_timestamp && str_eq(path.as_str(), "unit") {
                                        parsed.logical_type = parse_unit(text.as_str());
                                    }
                                },
                                Lit::Other => {},
                            }
                        },
                        NestedMeta::Other => {},
                    }
                    j += 1;
                }
                assert(items@.take(items.len() as int) =~= items@);
            },
            Meta::Other => {},
        }
        proof {
            assert(attrs@.take(i + 1).drop_last() =~= attrs@.take(i as int));
        }
        i += 1;
    }
    assert(attrs@.take(attrs.len() as int) =~= attrs@);
    parsed
}

/// The logical type of the schema that a declared one stands for: a
/// timestamp of the declared unit, in UTC.
pub fn logical_type_of(declared: &DeclaredType) -> (logical_type: LogicalType)
    ensures
        logical_type == match *declared {
            DeclaredType::Timestamp(unit) => utc_timestamp(unit),
        },
{
    match declared {
        DeclaredType::Timestamp(unit) => LogicalType::Timestamp {
            unit: *unit,
            adjusted_to_utc: true,
        },
    }
}

/// One call in the body of a derived `schema`: the child type lays out its
/// leaves under the label, with the logical type that the field declares.
#[derive(Debug, PartialEq, Eq)]
pub struct SchemaCall {
    pub label: String,
    pub field_type: String,
    pub logical_type: Option<LogicalType>,
}

/// A call with its texts as sequences of characters.
pub struct SchemaCallView {
    pub label: Seq<char>,
    pub field_type: Seq<char>,
    pub logical_type: Option<LogicalType>,
}

impl View for SchemaCall {
    type V = SchemaCallView;

    open spec fn view(&self) -> SchemaCallView {
        SchemaCallView {
            label: self.label@,
            field_type: self.field_type@,
            logical_type: self.logical_type,
        }
    }
}

/// The body of a derived `schema`.
#[derive(Debug, PartialEq, Eq)]
pub enum SchemaBody {
    /// A record: one call per field that is not ignored, in declaration order.
    Calls(Vec<SchemaCall>),
    /// A tagged type: one string leaf, named by the prefix or else by the type.
    Variant(String),
    /// A declaration that cannot be persisted, with the reason.
    Unsupported(String),
}

/// The body of a derived `schema` with its texts as sequences of characters.
pub enum SchemaBodyView {
    Calls(Seq<SchemaCallView>),
    Variant(Seq<char>),
    Unsupported(Seq<char>),
}

/// The views of a sequence of calls, in order.
pub open spec fn call_views(calls: Seq<SchemaCall>) -> Seq<SchemaCallView> {
    calls.map_values(|c: SchemaCall| c@)
}

impl View for SchemaBody {
    type V = SchemaBodyView;

    open spec fn view(&self) -> SchemaBodyView {
        match *self {
            SchemaBody::Calls(calls) => SchemaBodyView::Calls(call_views(calls@)),
            SchemaBody::Variant(name) => SchemaBodyView::Variant(name@),
            SchemaBody::Unsupported(reason) => SchemaBodyView::Unsupported(reason@),
        }
    }
}

/// The body of a derived `append`.
#[derive(Debug, PartialEq, Eq)]
pub enum AppendBody {
    /// A record: the members whose fields are pushed, in declaration order.
    Calls(Vec<String>),
    /// A tagged type: the names of its variants, one of which is pushed.
    Variants(Vec<String>),
    /// A declaration that cannot be persisted, with the reason.
    Unsupported(String),
}

/// The body of a derived `append` with its texts as sequences of characters.
pub enum AppendBodyView {
    Calls(Seq<Seq<char>>),
    Variants(Seq<Seq<char>>),
    Unsupported(Seq<char>),
}

impl View for AppendBody {
    type V = AppendBodyView;

    open spec fn view(&self) -> AppendBodyView {
        match *self {
            AppendBody::Calls(members) => AppendBodyView::Calls(string_views(members@)),
            AppendBody::Variants(names) => AppendBodyView::Variants(string_views(names@)),
            AppendBody::Unsupported(reason) => AppendBodyView::Unsupported(reason@),
        }
    }
}

/// The label of the field at `position`: its name in a named record, its
/// ordinal in a tuple record.
pub open spec fn label_of(field: FieldDecl, position: nat, named: bool) -> Seq<char> {
    if named {
        match field.ident {
            Some(name) => name@,
            None => Seq::empty(),
        }
    } else {
        decimal_chars(position)
    }
}

/// The logical type that the attributes of a field hand to its child.
pub open spec fn declared_logical(field: FieldDecl) -> Option<LogicalType> {
    match attributes_parsed(field.attrs@).logical_type {
        Some(DeclaredType::Timestamp(unit)) => Some(utc_timestamp(unit)),
        None => None,
    }
}

/// Whether the attributes of a field have it ignored.
pub open spec fn is_ignored(field: FieldDecl) -> bool {
    attributes_parsed(field.attrs@).ignore
}

/// The positions of the fields that are not ignored, in declaration order.
pub open spec fn kept(fields: Seq<FieldDecl>) -> Seq<int>
    decreases fields.len(),
{
    if fields.len() == 0 {
        Seq::empty()
    } else if is_ignored(fields.last()) {
        kept(fields.drop_last())
    } else {
        kept(fields.drop_last()).push(fields.len() - 1)
    }
}

/// The call for the field at `position`.
pub open spec fn call_of(field: FieldDecl, position: int, named: bool) -> SchemaCallView {
    SchemaCallView {
        label: label_of(field, position as nat, named),
        field_type: field.ty@,
        logical_type: declared_logical(field),
    }
}

/// The calls of a derived `schema`: one per field that is not ignored.
pub open spec fn schema_calls(fields: Seq<FieldDecl>, named: bool) -> Seq<SchemaCallView> {
    kept(fields).map_values(|i: int| call_of(fields[i], i, named))
}

/// The members that a derived `append` pushes: those that `schema` lays out.
pub open spec fn append_calls(fields: Seq<FieldDecl>, named: bool) -> Seq<Seq<char>> {
    schema_calls(fields, named).map_values(|c: SchemaCallView| c.label)
}

/// The names of the variants of a tagged type.
pub open spec fn variant_names(variants: Seq<Variant>) -> Seq<Seq<char>> {
    variants.map_values(|v: Variant| v.ident@)
}

/// Why a record without fields cannot be persisted.
pub open spec fn no_fields(name: Seq<char>) -> Seq<char> {
    "Unimplemented field type: "@ + name
}

/// Why a union cannot be persisted.
pub open spec fn no_data(name: Seq<char>) -> Seq<char> {
    "Unimplemented data type: "@ + name
}

/// The body of `schema` derived for the declaration of the type `name`.
pub open spec fn schema_body(data: Data, name: Seq<char>) -> SchemaBodyView {
    match data {
        Data::Struct(Fields::Named(fields)) => SchemaBodyView::Calls(schema_calls(fields@, true)),
        Data::Struct(Fields::Unnamed(fields)) => SchemaBodyView::Calls(
            schema_calls(fields@, false),
        ),
        Data::Struct(Fields::Unit) => SchemaBodyView::Unsupported(no_fields(name)),
        Data::Enum(_) => SchemaBodyView::Variant(name),
        Data::Union => SchemaBodyView::Unsupported(no_data(name)),
    }
}

/// The body of `append` derived for the declaration of the type `name`.
pub open spec fn append_body(data: Data, name: Seq<char>) -> AppendBodyView {
    match data {
        Data::Struct(Fields::Named(fields)) => AppendBodyView::Calls(append_calls(fields@, true)),
        Data::Struct(Fields::Unnamed(fields)) => AppendBodyView::Calls(
            append_calls(fields@, false),
        ),
        Data::Struct(Fields::Unit) => AppendBodyView::Unsupported(no_fields(name)),
        Data::Enum(variants) => AppendBodyView::Variants(variant_names(variants@)),
        Data::Union => AppendBodyView::Unsupported(no_data(name)),
    }
}

/// The kept positions are positions of fields that are not ignored, they
/// ascend, and no field that is not ignored is left out.
pub proof fn lemma_kept(fields: Seq<FieldDecl>)
    ensures
        forall|k: int|
            0 <= k < kept(fields).len() ==> 0 <= #[trigger] kept(fields)[k] < fields.len()
                && !is_ignored(fields[kept(fields)[k]]),
        forall|j: int, k: int|
            0 <= j < k < kept(fields).len() ==> kept(fields)[j] < kept(fields)[k],
        forall|i: int|
            0 <= i < fields.len() && !is_ignored(#[trigger] fields[i]) ==> kept(fields).contains(i),
    decreases fields.len(),
{
    if fields.len() > 0 {
        let front = fields.drop_last();
        lemma_kept(front);
        assert forall|i: int|
            0 <= i < fields.len() && !is_ignored(#[trigger] fields[i]) implies kept(
            fields,
        ).contains(i) by {
            if i < front.len() {
                assert(front[i] == fields[i]);
                let k = choose|k: int| 0 <= k < kept(front).len() && kept(front)[k] == i;
                assert(kept(fields)[k] == i);
            } else {
                assert(kept(fields)[kept(fields).len() - 1] == i);
            }
        }
    }
}

/// One more field adds its call unless the field is ignored.
pub proof fn lemma_schema_calls_step(fields: Seq<FieldDecl>, i: int, named: bool)
    requires
        0 <= i < fields.len(),
    ensures
        schema_calls(fields.take(i + 1), named) == if is_ignored(fields[i]) {
            schema_calls(fields.take(i), named)
        } else {
            schema_calls(fields.take(i), named).push(call_of(fields[i], i, named))
        },
{
    let wide = fields.take(i + 1);
    let narrow = fields.take(i);
    assert(wide.drop_last() =~= narrow);
    lemma_kept(narrow);
    assert forall|k: int| 0 <= k < kept(narrow).len() implies call_of(
        wide[kept(narrow)[k]],
        kept(narrow)[k],
        named,
    ) == call_of(narrow[kept(narrow)[k]], kept(narrow)[k], named) by {
        assert(wide[kept(narrow)[k]] == narrow[kept(narrow)[k]]);
    }
    if is_ignored(fields[i]) {
        assert(schema_calls(wide, named) =~= schema_calls(narrow, named));
    } else {
        assert(schema_calls(wide, named) =~= schema_calls(narrow, named).push(
            call_of(fields[i], i, named),
        ));
    }
}

/// The calls that lay out the fields of a record.
fn field_calls(fields: &Vec<FieldDecl>, named: bool) -> (calls: Vec<SchemaCall>)
    ensures
        call_views(calls@) == schema_calls(fields@, named),
{
    let mut calls: Vec<SchemaCall> = Vec::new();
    let mut i: usize = 0;
    assert(fields@.take(0) =~= Seq::<FieldDecl>::empty());
    assert(call_views(calls@) =~= schema_calls(fields@.take(0), named));
    while i < fields.len()
        invariant
            i <= fields.len(),
            call_views(calls@) == schema_calls(fields@.take(i as int), named),
        decreases fields.len() - i,
    {
        let field = &fields[i];
        proof {
            lemma_schema_calls_step(fields@, i as int, named);
        }
        let settings = parse_persist_attributes(&field.attrs);
        if !settings.ignore {
            let label = if named {
                match &field.ident {
                    Some(name) => name.clone(),
                    None => String::new(),
                }
            } else {
                decimal(i)
            };
            let logical_type = match settings.logical_type {
                Some(declared) => Some(logical_type_of(&declared)),
                None => None,
            };
            let ghost before = calls@;
            calls.push(SchemaCall { label, field_type: field.ty.clone(), logical_type });
            assert(call_views(calls@) =~= call_views(before).push(
                call_of(fields@[i as int], i as int, named),
            ));
        }
        i += 1;
    }
    assert(fields@.take(fields.len() as int) =~= fields@);
    calls
}

/// The labels of calls, in order.
fn call_labels(calls: &Vec<SchemaCall>) -> (labels: Vec<String>)
    ensures
        string_views(labels@) == call_views(calls@).map_values(|c: SchemaCallView| c.label),
{
    let mut labels: Vec<String> = Vec::new();
    let mut i: usize = 0;
    while i < calls.len()
        invariant
            i <= calls.len(),
            labels@.len() == i,
            forall|k: int| 0 <= k < i ==> labels@[k]@ == calls@[k].label@,
        decreases calls.len() - i,
    {
        labels.push(calls[i].label.clone());
        i += 1;
    }
    assert(string_views(labels@) =~= call_views(calls@).map_values(|c: SchemaCallView| c.label));
    labels
}

/// Derives the body of `schema` for the declaration of the type `name`.
pub fn generate_schema_body(data: &Data, name: &str) -> (body: SchemaBody)
    ensures
        body@ == schema_body(*data, name@),
{
    match data {
        Data::Struct(Fields::Named(fields)) => SchemaBody::Calls(field_calls(fields, true)),
        Data::Struct(Fields::Unnamed(fields)) => SchemaBody::Calls(field_calls(fields, false)),
        Data::Struct(Fields::Unit) => SchemaBody::Unsupported(
            joined("Unimplemented field type: ", name),
        ),
        Data::Enum(_) => SchemaBody::Variant(name.to_owned()),
        Data::Union => SchemaBody::Unsupported(joined("Unimplemented data type: ", name)),
    }
}

/// Derives the body of `append` for the declaration of the type `name`.
pub fn generate_append_body(data: &Data, name: &str) -> (body: AppendBody)
    ensures
        body@ == append_body(*data, name@),
{
    match data {
        Data::Struct(Fields::Named(fields)) => {
            let calls = field_calls(fields, true);
            AppendBody::Calls(call_labels(&calls))
        },
        Data::Struct(Fields::Unnamed(fields)) => {
            let calls = field_calls(fields, false);
            AppendBody::Calls(call_labels(&calls))
        },
        Data::Struct(Fields::Unit) => AppendBody::Unsupported(
            joined("Unimplemented field type: ", name),
        ),
        Data::Enum(variants) => {
            let mut names: Vec<String> = Vec::new();
            let mut i: usize = 0;
            while i < variants.len()
                invariant
                    i <= variants.len(),
                    names@.len() == i,
                    forall|k: int| 0 <= k < i ==> names@[k]@ == variants@[k].ident@,
                decreases variants.len() - i,
            {
                names.push(variants[i].ident.clone());
                i += 1;
            }
            assert(string_views(names@) =~= variant_names(variants@));
            AppendBody::Variants(names)
        },
        Data::Union => AppendBody::Unsupported(joined("Unimplemented data type: ", name)),
    }
}

/// What is derived for a declared type: the bodies of its `schema` and of
/// its `append`.
#[derive(Debug, PartialEq, Eq)]
pub struct Derived {
    pub name: String,
    pub schema_body: SchemaBody,
    pub append_body: AppendBody,
}

/// Derives the protocol for a declared type.
pub fn persist_derive(input: &DeriveInput) -> (derived: Derived)
    ensures
        derived.name@ == input.ident@,
        derived.schema_body@ == schema_body(input.data, input.ident@),
        derived.append_body@ == append_body(input.data, input.ident@),
{
    let name = input.ident.as_str();
    Derived {
        name: input.ident.clone(),
        schema_body: generate_schema_body(&input.data, name),
        append_body: generate_append_body(&input.data, name),
    }
}

/// Derives the protocol for a declared type that carries the attributes
/// `persist` and `persist_timestamp` on its fields.
pub fn parquet_record_writer(input: &DeriveInput) -> (derived: Derived)
    ensures
        derived.name@ == input.ident@,
        derived.schema_body@ == schema_body(input.data, input.ident@),
        derived.append_body@ == append_body(input.data, input.ident@),
{
    persist_derive(input)
}

/// Runs one call of a derived `schema`: the child type `T` lays out its
/// leaves under the label, joined to the prefix if there is one.
pub fn field_schema<T: Persistable>(
    fields: &mut Vec<Leaf>,
    prefix: Option<&str>,
    label: &str,
    repetition_override: Option<Repetition>,
    logical_type: Option<LogicalType>,
)
    ensures
        leaf_views(final(fields)@) == leaf_views(old(fields)@) + T::leaves(
            Some(child_name_chars(opt_chars(prefix), label@)),
            repetition_override,
            logical_type,
        ),
        T::leaves(
            Some(child_name_chars(opt_chars(prefix), label@)),
            repetition_override,
            logical_type,
        ).len() == T::width(),
{
    let name = child_name(prefix, label);
    T::schema(fields, Some(name.as_str()), repetition_override, logical_type);
}

impl SchemaCall {
    /// Runs the call for the child type `T`, which is the type that the
    /// field was declared with.
    pub fn run<T: Persistable>(
        &self,
        fields: &mut Vec<Leaf>,
        prefix: Option<&str>,
        repetition_override: Option<Repetition>,
    )
        ensures
            leaf_views(final(fields)@) == leaf_views(old(fields)@) + T::leaves(
                Some(child_name_chars(opt_chars(prefix), self.label@)),
                repetition_override,
                self.logical_type,
            ),
    {
        field_schema::<T>(
            fields,
            prefix,
            self.label.as_str(),
            repetition_override,
            self.logical_type,
        );
    }
}

/// The name of the leaf of a tagged type: the prefix, or else the type's name.
pub open spec fn variant_leaf_name(prefix: Option<Seq<char>>, owner: Seq<char>) -> Seq<char> {
    match prefix {
        Some(p) => p,
        None => owner,
    }
}

/// Runs the derived `schema` of a tagged type: one string leaf.
pub fn variant_schema(
    fields: &mut Vec<Leaf>,
    prefix: Option<&str>,
    owner: &str,
    repetition_override: Option<Repetition>,
)
    ensures
        leaf_views(final(fields)@) == leaf_views(old(fields)@) + single_leaf(
            Some(variant_leaf_name(opt_chars(prefix), owner@)),
            PhysicalType::ByteArray,
            repetition_override,
            Some(LogicalType::String),
        ),
{
    let name = match prefix {
        Some(p) => p,
        None => owner,
    };
    push_leaf(
        fields,
        Some(name),
        PhysicalType::ByteArray,
        repetition_override,
        Some(LogicalType::String),
    );
}

/// Runs the derived `append` of a tagged type: the name of the value's
/// variant is pushed as a string.
pub fn variant_append(rows: &mut RowBuffer, variant: &str)
    ensures
        final(rows)@ == old(rows)@.extended(seq![FieldView::Str(variant@)]),
{
    push_cell(rows, Field::Str(variant.to_owned()));
}

} // verus!
