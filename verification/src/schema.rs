//! Leaf columns: what a persisted type lays out, one descriptor per column.

use crate::text::{joined, string_views};
use vstd::prelude::*;

verus! {

/// How a column's values are stored.
#[derive(Clone, Copy, Debug, PartialEq, Eq, Structural)]
pub enum PhysicalType {
    Bool,
    Int32,
    Int64,
    Float,
    Double,
    ByteArray,
}

impl PhysicalType {
    /// The name of the physical type in capitals.
    pub open spec fn chars(self) -> Seq<char> {
        match self {
            PhysicalType::Bool => "BOOLEAN"@,
            PhysicalType::Int32 => "INT32"@,
            PhysicalType::Int64 => "INT64"@,
            PhysicalType::Float => "FLOAT"@,
            PhysicalType::Double => "DOUBLE"@,
            PhysicalType::ByteArray => "BYTE_ARRAY"@,
        }
    }

    /// The name of the physical type in capitals.
    pub fn name(&self) -> (name: &'static str)
        ensures
            name@ == self.chars(),
    {
        match self {
            PhysicalType::Bool => "BOOLEAN",
            PhysicalType::Int32 => "INT32",
            PhysicalType::Int64 => "INT64",
            PhysicalType::Float => "FLOAT",
            PhysicalType::Double => "DOUBLE",
            PhysicalType::ByteArray => "BYTE_ARRAY",
        }
    }
}

/// Whether a column holds a value in every row.
#[derive(Clone, Copy, Debug, PartialEq, Eq, Structural)]
pub enum Repetition {
    Required,
    Optional,
}

/// The resolution of a timestamp column.
#[derive(Clone, Copy, Debug, PartialEq, Eq, Structural)]
pub enum TimeUnit {
    Nanos,
    Micros,
    Millis,
}

/// How the stored values of a column are to be read.
#[derive(Clone, Copy, Debug, PartialEq, Eq, Structural)]
pub enum LogicalType {
    String,
    Timestamp { unit: TimeUnit, adjusted_to_utc: bool },
}

/// One leaf column.
#[derive(Debug, PartialEq, Eq)]
pub struct Leaf {
    pub name: String,
    pub physical_type: PhysicalType,
    pub repetition: Repetition,
    pub logical_type: Option<LogicalType>,
}

/// A leaf column with its name as a sequence of characters.
pub struct LeafView {
    pub name: Seq<char>,
    pub physical_type: PhysicalType,
    pub repetition: Repetition,
    pub logical_type: Option<LogicalType>,
}

impl View for Leaf {
    type V = LeafView;

    open spec fn view(&self) -> LeafView {
        LeafView {
            name: self.name@,
            physical_type: self.physical_type,
            repetition: self.repetition,
            logical_type: self.logical_type,
        }
    }
}

impl Clone for Leaf {
    fn clone(&self) -> (copy: Self)
        ensures
            copy@ == self@,
    {
        Leaf {
            name: self.name.clone(),
            physical_type: self.physical_type,
            repetition: self.repetition,
            logical_type: self.logical_type,
        }
    }
}

/// The views of a sequence of leaves, in order.
pub open spec fn leaf_views(leaves: Seq<Leaf>) -> Seq<LeafView> {
    leaves.map_values(|leaf: Leaf| leaf@)
}

/// The root of a schema: a named group over leaf columns.
#[derive(Debug, PartialEq, Eq)]
pub struct GroupType {
    pub name: String,
    pub fields: Vec<Leaf>,
}

/// The root of a schema with its name as a sequence of characters.
pub struct GroupTypeView {
    pub name: Seq<char>,
    pub fields: Seq<LeafView>,
}

impl View for GroupType {
    type V = GroupTypeView;

    open spec fn view(&self) -> GroupTypeView {
        GroupTypeView { name: self.name@, fields: leaf_views(self.fields@) }
    }
}

impl Clone for GroupType {
    fn clone(&self) -> (copy: Self)
        ensures
            copy@ == self@,
    {
        GroupType { name: self.name.clone(), fields: clone_leaves(&self.fields) }
    }
}

/// A leaf as a log shows it: its name, a colon and its physical type.
pub open spec fn described(leaf: LeafView) -> Seq<char> {
    leaf.name + ":"@ + leaf.physical_type.chars()
}

impl GroupType {
    /// The leaves as a log shows them, in order.
    pub fn describe(&self) -> (lines: Vec<String>)
        ensures
            string_views(lines@) == leaf_views(self.fields@).map_values(|l: LeafView| described(l)),
    {
        let mut lines: Vec<String> = Vec::new();
        let mut i: usize = 0;
        while i < self.fields.len()
            invariant
                i <= self.fields.len(),
                lines@.len() == i,
                forall|k: int| 0 <= k < i ==> lines@[k]@ == described(self.fields@[k]@),
            decreases self.fields.len() - i,
        {
            let leaf = &self.fields[i];
            let named = joined(leaf.name.as_str(), ":");
            lines.push(joined(named.as_str(), leaf.physical_type.name()));
            i += 1;
        }
        assert(string_views(lines@) =~= leaf_views(self.fields@).map_values(
            |l: LeafView| described(l),
        ));
        lines
    }

    /// The group named `name` over copies of `fields`.
    pub fn new(name: &str, fields: &Vec<Leaf>) -> (group: GroupType)
        ensures
            group@ == (GroupTypeView { name: name@, fields: leaf_views(fields@) }),
    {
        GroupType { name: name.to_owned(), fields: clone_leaves(fields) }
    }
}

/// The repetition of a leaf: the one handed down, or required.
pub open spec fn effective_repetition(repetition_override: Option<Repetition>) -> Repetition {
    match repetition_override {
        Some(r) => r,
        None => Repetition::Required,
    }
}

/// The leaf that a primitive lays out under `name`.
pub open spec fn primitive_leaf(
    name: Seq<char>,
    physical_type: PhysicalType,
    repetition_override: Option<Repetition>,
    logical_type: Option<LogicalType>,
) -> LeafView {
    LeafView {
        name,
        physical_type,
        repetition: effective_repetition(repetition_override),
        logical_type,
    }
}

/// The logical type of a timestamp in UTC.
pub open spec fn utc_timestamp(unit: TimeUnit) -> LogicalType {
    LogicalType::Timestamp { unit, adjusted_to_utc: true }
}

impl Leaf {
    /// The leaf of a primitive column: required unless a repetition is handed down.
    pub fn primitive(
        name: &str,
        physical_type: PhysicalType,
        repetition_override: Option<Repetition>,
        logical_type: Option<LogicalType>,
    ) -> (leaf: Leaf)
        ensures
            leaf@ == primitive_leaf(name@, physical_type, repetition_override, logical_type),
    {
        let repetition = match repetition_override {
            Some(r) => r,
            None => Repetition::Required,
        };
        Leaf { name: name.to_owned(), physical_type, repetition, logical_type }
    }
}

/// Copies a list of leaves.
pub fn clone_leaves(leaves: &Vec<Leaf>) -> (copy: Vec<Leaf>)
    ensures
        leaf_views(copy@) == leaf_views(leaves@),
{
    let mut copy: Vec<Leaf> = Vec::new();
    let mut i: usize = 0;
    while i < leaves.len()
        invariant
            i <= leaves.len(),
            copy@.len() == i,
            forall|k: int| 0 <= k < i ==> copy@[k]@ == leaves@[k]@,
        decreases leaves.len() - i,
    {
        copy.push(leaves[i].clone());
        i += 1;
    }
    assert(leaf_views(copy@) =~= leaf_views(leaves@));
    copy
}

} // verus!
