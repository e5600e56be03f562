use vstd::prelude::*;

verus! {

/// The presence label a field was declared with.
#[derive(Clone, Copy, Debug, PartialEq, Eq, Structural)]
pub enum Label {
    Optional,
    Required,
    Repeated,
}

/// The wire type of a field: a scalar kind, a reference to a message or an
/// enum (named by the field's `type_ref`), or the group encoding.
#[derive(Clone, Copy, Debug, PartialEq, Eq, Structural)]
pub enum FieldType {
    Double,
    Float,
    Int64,
    Uint64,
    Int32,
    Fixed64,
    Fixed32,
    Bool,
    String,
    Group,
    Message,
    Bytes,
    Uint32,
    Enum,
    Sfixed32,
    Sfixed64,
    Sint32,
    Sint64,
}

/// One field of a message.
#[derive(Clone, Debug)]
pub struct FieldDesc {
    pub name: String,
    pub number: i32,
    pub label: Option<Label>,
    pub ty: Option<FieldType>,
    /// The referenced type's name, for message and enum fields.
    pub type_ref: String,
    /// Position of the oneof group the field belongs to, if any.
    pub oneof_index: Option<i32>,
    /// Set on a presence-tracked field whose oneof the compiler made up.
    pub proto3_optional: bool,
    /// The default value's literal text, unescaped.
    pub default_value: Option<String>,
}

/// A oneof group, referenced by position from its member fields.
#[derive(Clone, Debug)]
pub struct OneofDesc {
    pub name: String,
}

/// One named value of an enum.
#[derive(Clone, Debug)]
pub struct EnumValueDesc {
    pub name: String,
    pub number: i32,
}

#[derive(Clone, Debug)]
pub struct EnumDesc {
    pub name: String,
    pub values: Vec<EnumValueDesc>,
}

/// A reserved range of field numbers.
#[derive(Clone, Copy, Debug, PartialEq, Eq, Structural)]
pub struct ReservedRange {
    pub start: i32,
    pub end: i32,
}

#[derive(Debug)]
pub struct MessageDesc {
    pub name: String,
    pub nested: Vec<MessageDesc>,
    pub enums: Vec<EnumDesc>,
    /// Fields in declaration order.
    pub fields: Vec<FieldDesc>,
    pub oneofs: Vec<OneofDesc>,
    pub reserved_names: Vec<String>,
    pub reserved_ranges: Vec<ReservedRange>,
}

/// An imported file.
#[derive(Clone, Debug)]
pub struct Dependency {
    pub path: String,
    pub is_public: bool,
}

/// A whole schema file.
#[derive(Debug)]
pub struct FileDesc {
    /// The file name the descriptor declares.
    pub name: String,
    /// The dialect, e.g. `proto2` or `proto3`.
    pub syntax: String,
    pub package: String,
    pub dependencies: Vec<Dependency>,
    pub messages: Vec<MessageDesc>,
    pub enums: Vec<EnumDesc>,
    /// Names of declared services.
    pub services: Vec<String>,
}

/// How a field takes part in its message's layout.
#[derive(Clone, Copy, Debug, PartialEq, Eq, Structural)]
pub enum FieldRole {
    /// An ordinary field, outside any oneof.
    Plain,
    /// A presence-tracked field; rendered in place with an `optional` word.
    ExplicitOptional,
    /// A member of an explicit oneof group, at the given position.
    OneofMember(i32),
}

impl FieldDesc {
    pub open spec fn spec_role(&self) -> FieldRole {
        if self.proto3_optional {
            FieldRole::ExplicitOptional
        } else {
            match self.oneof_index {
                Some(i) => FieldRole::OneofMember(i),
                None => FieldRole::Plain,
            }
        }
    }

    /// Rendered at its own position among the message's fields.
    pub open spec fn is_direct(&self) -> bool {
        !(self.spec_role() is OneofMember)
    }

    /// A member of the explicit oneof group at position `i`.
    pub open spec fn is_member_of(&self, i: int) -> bool {
        self.spec_role() == FieldRole::OneofMember(i as i32) && 0 <= i && i <= i32::MAX
    }

    /// Classifies the field once for layout.
    pub fn role(&self) -> (r: FieldRole)
        ensures
            r == self.spec_role(),
    {
        if self.proto3_optional {
            FieldRole::ExplicitOptional
        } else {
            match self.oneof_index {
                Some(i) => FieldRole::OneofMember(i),
                None => FieldRole::Plain,
            }
        }
    }
}

} // verus!
