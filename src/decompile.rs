use vstd::prelude::*;
use crate::descriptor::{
    Dependency, EnumDesc, EnumValueDesc, FieldDesc, FieldRole, FieldType, FileDesc, Label,
    MessageDesc,
};
use crate::proto_writer::ProtoWriter;
use crate::text::{int_text, pad};

verus! {

broadcast use vstd::seq::group_seq_axioms, vstd::std_specs::vec::group_vec_axioms;

/// A construct the decompiler has no rendering rule for.
#[derive(Clone, Copy, Debug, PartialEq, Eq, Structural)]
pub enum Construct {
    Service,
    ReservedName,
    ReservedRange,
    GroupField,
}

/// Why a descriptor could not be rendered.
#[derive(Clone, Debug, PartialEq, Eq)]
pub enum RenderError {
    /// An unsupported construct, with the name of the service, message or
    /// field that holds it.
    Unsupported { construct: Construct, owner: String },
    /// A field that declares no type.
    MissingType { field: String },
    /// Messages nest deeper than the indentation counter can track.
    NestingTooDeep,
}

pub type Rendered = Result<Seq<char>, RenderError>;

/// Sequencing of two renderings: the first error wins, else the texts concatenate.
pub open spec fn join(a: Rendered, b: Rendered) -> Rendered {
    match a {
        Err(e) => Err(e),
        Ok(x) => match b {
            Err(e) => Err(e),
            Ok(y) => Ok(x + y),
        },
    }
}

/// What a writer call that renders `expected` leaves behind: on success the
/// text grew by exactly the rendering, on failure the same error came back.
pub open spec fn wrote(before: Seq<char>, after: Seq<char>, r: Result<(), RenderError>, expected: Rendered) -> bool {
    match expected {
        Ok(t) => r is Ok && after == before + t,
        Err(e) => r == Err::<(), RenderError>(e),
    }
}

pub open spec fn scalar_token(t: FieldType) -> Seq<char> {
    match t {
        FieldType::Double => "double"@,
        FieldType::Float => "float"@,
        FieldType::Int64 => "int64"@,
        FieldType::Uint64 => "uint64"@,
        FieldType::Int32 => "int32"@,
        FieldType::Fixed64 => "fixed64"@,
        FieldType::Fixed32 => "fixed32"@,
        FieldType::Bool => "bool"@,
        FieldType::String => "string"@,
        FieldType::Bytes => "bytes"@,
        FieldType::Uint32 => "uint32"@,
        FieldType::Sfixed32 => "sfixed32"@,
        FieldType::Sfixed64 => "sfixed64"@,
        FieldType::Sint32 => "sint32"@,
        FieldType::Sint64 => "sint64"@,
        _ => Seq::empty(),
    }
}

/// The type token of a field: a scalar keyword, or the referenced name as it stands.
pub open spec fn type_text(f: FieldDesc) -> Rendered {
    match f.ty {
        None => Err(RenderError::MissingType { field: f.name }),
        Some(FieldType::Group) => Err(RenderError::Unsupported { construct: Construct::GroupField, owner: f.name }),
        Some(FieldType::Message) => Ok(f.type_ref@),
        Some(FieldType::Enum) => Ok(f.type_ref@),
        Some(t) => Ok(scalar_token(t)),
    }
}

/// The label word; an optional label shows only on a presence-tracked field.
pub open spec fn label_text(f: FieldDesc) -> Seq<char> {
    match f.label {
        Some(Label::Optional) => if f.proto3_optional { "optional "@ } else { Seq::empty() },
        Some(Label::Required) => "required "@,
        Some(Label::Repeated) => "repeated "@,
        None => Seq::empty(),
    }
}

pub open spec fn default_text(f: FieldDesc) -> Seq<char> {
    match f.default_value {
        Some(v) => " [default ="@ + v@ + "]"@,
        None => Seq::empty(),
    }
}

/// One field line at depth `d`.
pub open spec fn field_text(f: FieldDesc, d: nat) -> Rendered {
    match type_text(f) {
        Err(e) => Err(e),
        Ok(ty) => Ok(pad(d) + label_text(f) + ty + " "@ + f.name@ + " = "@ + int_text(f.number as int)
            + default_text(f) + ";\n"@),
    }
}

/// Field lines for every field of `fs`, in order.
pub open spec fn fields_text(fs: Seq<FieldDesc>, d: nat) -> Rendered
    decreases fs.len(),
{
    if fs.len() == 0 {
        Ok(Seq::empty())
    } else {
        join(field_text(fs[0], d), fields_text(fs.skip(1), d))
    }
}

/// One pass over the declared fields that renders each direct one in place.
pub open spec fn direct_text(fs: Seq<FieldDesc>, d: nat) -> Rendered
    decreases fs.len(),
{
    if fs.len() == 0 {
        Ok(Seq::empty())
    } else if fs[0].is_direct() {
        join(field_text(fs[0], d), direct_text(fs.skip(1), d))
    } else {
        direct_text(fs.skip(1), d)
    }
}

/// The fields of `m` that render at their own position, in declaration order.
pub open spec fn direct_fields(m: MessageDesc) -> Seq<FieldDesc> {
    m.fields@.filter(direct_pred())
}

pub open spec fn direct_pred() -> spec_fn(FieldDesc) -> bool {
    |f: FieldDesc| f.is_direct()
}

pub open spec fn member_pred(i: int) -> spec_fn(FieldDesc) -> bool {
    |f: FieldDesc| f.is_member_of(i)
}

/// The members of the oneof group at position `i`, in declaration order.
pub open spec fn members(m: MessageDesc, i: int) -> Seq<FieldDesc> {
    m.fields@.filter(member_pred(i))
}

/// The block of the oneof group at position `i`; a group of fewer than two
/// members has none.
pub open spec fn oneof_text(m: MessageDesc, i: int, d: nat) -> Rendered {
    if members(m, i).len() < 2 {
        Ok(Seq::empty())
    } else {
        join(
            Ok(pad(d) + "oneof "@ + m.oneofs@[i].name@ + " {\n"@),
            join(fields_text(members(m, i), d + 1), Ok(pad(d) + "}\n"@)),
        )
    }
}

/// The blocks of the oneof groups from position `i` on.
pub open spec fn oneofs_text(m: MessageDesc, i: int, d: nat) -> Rendered
    decreases m.oneofs@.len() - i,
{
    if i < 0 || i >= m.oneofs@.len() {
        Ok(Seq::empty())
    } else {
        join(oneof_text(m, i, d), oneofs_text(m, i + 1, d))
    }
}

pub open spec fn value_text(v: EnumValueDesc, d: nat) -> Seq<char> {
    pad(d) + v.name@ + " = "@ + int_text(v.number as int) + ";\n"@
}

pub open spec fn values_text(vs: Seq<EnumValueDesc>, d: nat) -> Seq<char>
    decreases vs.len(),
{
    if vs.len() == 0 {
        Seq::empty()
    } else {
        value_text(vs[0], d) + values_text(vs.skip(1), d)
    }
}

pub open spec fn enum_text(e: EnumDesc, d: nat) -> Seq<char> {
    pad(d) + "enum "@ + e.name@ + " {\n"@ + values_text(e.values@, d + 1) + pad(d) + "}\n\n"@
}

pub open spec fn enums_text(es: Seq<EnumDesc>, d: nat) -> Seq<char>
    decreases es.len(),
{
    if es.len() == 0 {
        Seq::empty()
    } else {
        enum_text(es[0], d) + enums_text(es.skip(1), d)
    }
}

/// A message block at depth `d`: nested messages, nested enums, direct
/// fields, then oneof blocks.
pub open spec fn message_text(m: MessageDesc, d: nat) -> Rendered
    decreases m,
{
    if m.reserved_names@.len() > 0 {
        Err(RenderError::Unsupported { construct: Construct::ReservedName, owner: m.name })
    } else if m.reserved_ranges@.len() > 0 {
        Err(RenderError::Unsupported { construct: Construct::ReservedRange, owner: m.name })
    } else {
        join(
            Ok(pad(d) + "message "@ + m.name@ + " {\n"@),
            join(
                messages_text(m.nested@, d + 1),
                join(
                    Ok(enums_text(m.enums@, d + 1)),
                    join(
                        direct_text(m.fields@, d + 1),
                        join(oneofs_text(m, 0, d + 1), Ok(pad(d) + "}\n\n"@)),
                    ),
                ),
            ),
        )
    }
}

pub open spec fn messages_text(ms: Seq<MessageDesc>, d: nat) -> Rendered
    decreases ms,
{
    if ms.len() == 0 {
        Ok(Seq::empty())
    } else {
        join(message_text(ms[0], d), messages_text(ms.skip(1), d))
    }
}

/// How deep a message's rendering indents below its own line.
pub open spec fn height(m: MessageDesc) -> nat
    decreases m,
{
    2 + heights(m.nested@)
}

pub open spec fn heights(ms: Seq<MessageDesc>) -> nat
    decreases ms,
{
    if ms.len() == 0 {
        0
    } else {
        let a = height(ms[0]);
        let b = heights(ms.skip(1));
        if a >= b { a } else { b }
    }
}

pub open spec fn dependency_text(dep: Dependency) -> Seq<char> {
    "import "@ + (if dep.is_public { "public "@ } else { Seq::empty() }) + "\""@ + dep.path@ + "\";\n"@
}

pub open spec fn dependencies_text(deps: Seq<Dependency>) -> Seq<char>
    decreases deps.len(),
{
    if deps.len() == 0 {
        Seq::empty()
    } else {
        dependency_text(deps[0]) + dependencies_text(deps.skip(1))
    }
}

/// The file preamble: dialect, package, imports.
pub open spec fn header_text(f: FileDesc) -> Seq<char> {
    "syntax = \""@ + f.syntax@ + "\";\n\n"@ + "package "@ + f.package@ + ";\n\n"@
        + dependencies_text(f.dependencies@)
        + (if f.dependencies@.len() > 0 { "\n"@ } else { Seq::empty() })
}

/// The whole file rendered at depth `d`.
pub open spec fn file_text_at(f: FileDesc, d: nat) -> Rendered {
    if f.services@.len() > 0 {
        Err(RenderError::Unsupported { construct: Construct::Service, owner: f.services@[0] })
    } else {
        join(Ok(header_text(f)), join(messages_text(f.messages@, d), Ok(enums_text(f.enums@, d))))
    }
}

/// The source text of a file descriptor, or the first construct that stops it.
pub open spec fn file_text(f: FileDesc) -> Rendered {
    file_text_at(f, 0)
}

} // verus!

verus! {

/// `join` of a known prefix with `rest` regroups as one would expect.
proof fn lemma_join_ok(acc: Seq<char>, t: Seq<char>, rest: Rendered)
    ensures
        join(Ok(acc), join(Ok(t), rest)) == join(Ok(acc + t), rest),
{
    if let Ok(y) = rest {
        assert(acc + (t + y) =~= (acc + t) + y);
    }
}

fn type_token<'a>(f: &'a FieldDesc) -> (r: Result<&'a str, RenderError>)
    ensures
        match type_text(*f) {
            Ok(t) => r is Ok && r->Ok_0@ == t,
            Err(e) => r == Err::<&str, RenderError>(e),
        },
{
    match f.ty {
        None => Err(RenderError::MissingType { field: f.name.clone() }),
        Some(FieldType::Group) => Err(
            RenderError::Unsupported { construct: Construct::GroupField, owner: f.name.clone() },
        ),
        Some(FieldType::Message) => Ok(f.type_ref.as_str()),
        Some(FieldType::Enum) => Ok(f.type_ref.as_str()),
        Some(FieldType::Double) => Ok("double"),
        Some(FieldType::Float) => Ok("float"),
        Some(FieldType::Int64) => Ok("int64"),
        Some(FieldType::Uint64) => Ok("uint64"),
        Some(FieldType::Int32) => Ok("int32"),
        Some(FieldType::Fixed64) => Ok("fixed64"),
        Some(FieldType::Fixed32) => Ok("fixed32"),
        Some(FieldType::Bool) => Ok("bool"),
        Some(FieldType::String) => Ok("string"),
        Some(FieldType::Bytes) => Ok("bytes"),
        Some(FieldType::Uint32) => Ok("uint32"),
        Some(FieldType::Sfixed32) => Ok("sfixed32"),
        Some(FieldType::Sfixed64) => Ok("sfixed64"),
        Some(FieldType::Sint32) => Ok("sint32"),
        Some(FieldType::Sint64) => Ok("sint64"),
    }
}

impl ProtoWriter {
    fn write_field(&mut self, f: &FieldDesc) -> (r: Result<(), RenderError>)
        ensures
            final(self).depth() == old(self).depth(),
            wrote(old(self).text(), final(self).text(), r, field_text(*f, old(self).depth())),
    {
        let ty = match type_token(f) {
            Err(e) => return Err(e),
            Ok(t) => t,
        };
        let ghost t0 = self.text();
        let ghost d = self.depth();
        self.push_str_indented("");
        proof {
            reveal_strlit("");
        }
        match f.label {
            Some(Label::Optional) => {
                if f.proto3_optional {
                    self.push_str("optional ");
                }
            },
            Some(Label::Required) => self.push_str("required "),
            Some(Label::Repeated) => self.push_str("repeated "),
            None => {},
        }
        assert(self.text() =~= t0 + pad(d) + label_text(*f));
        self.push_str(ty);
        self.push_str(" ");
        self.push_str(f.name.as_str());
        self.push_str(" = ");
        self.push_int(f.number);
        let ghost t1 = self.text();
        match &f.default_value {
            Some(v) => {
                self.push_str(" [default =");
                self.push_str(v.as_str());
                self.push_str("]");
            },
            None => {},
        }
        assert(self.text() =~= t1 + default_text(*f));
        self.push_str(";\n");
        assert(self.text() =~= t0 + field_text(*f, d)->Ok_0);
        Ok(())
    }

    /// Renders every field of `fs` in order, at the current depth.
    fn write_fields(&mut self, fs: &Vec<&FieldDesc>) -> (r: Result<(), RenderError>)
        ensures
            final(self).depth() == old(self).depth(),
            wrote(old(self).text(), final(self).text(), r, fields_text(fs@.map_values(|f: &FieldDesc| *f), old(self).depth())),
    {
        let ghost s = fs@.map_values(|f: &FieldDesc| *f);
        let ghost d = self.depth();
        let ghost t0 = self.text();
        let ghost mut acc: Seq<char> = Seq::empty();
        let mut i: usize = 0;
        proof {
            assert(s.skip(0) =~= s);
            if let Ok(y) = fields_text(s, d) {
                assert(acc + y =~= y);
            }
            assert(t0 + acc =~= t0);
        }
        while i < fs.len()
            invariant
                i <= fs.len(),
                s == fs@.map_values(|f: &FieldDesc| *f),
                s.len() == fs@.len(),
                d == old(self).depth(),
                t0 == old(self).text(),
                self.depth() == d,
                self.text() == t0 + acc,
                fields_text(s, d) == join(Ok(acc), fields_text(s.skip(i as int), d)),
            decreases fs.len() - i,
        {
            assert(s.skip(i as int)[0] == s[i as int]);
            assert(s.skip(i as int).skip(1) =~= s.skip(i + 1));
            assert(*fs@[i as int] == s[i as int]);
            match self.write_field(fs[i]) {
                Err(e) => {
                    assert(fields_text(s.skip(i as int), d) == Err::<Seq<char>, RenderError>(e));
                    return Err(e);
                },
                Ok(()) => {},
            }
            proof {
                let t = field_text(s[i as int], d)->Ok_0;
                lemma_join_ok(acc, t, fields_text(s.skip(i + 1), d));
                acc = acc + t;
            }
            i = i + 1;
        }
        assert(s.skip(i as int).len() == 0);
        assert(t0 + acc + Seq::<char>::empty() =~= t0 + acc);
        Ok(())
    }
}


impl ProtoWriter {
    /// Renders, in one pass, each field of `fs` that is not an explicit oneof member.
    fn write_direct_fields(&mut self, fs: &Vec<FieldDesc>) -> (r: Result<(), RenderError>)
        ensures
            final(self).depth() == old(self).depth(),
            wrote(old(self).text(), final(self).text(), r, direct_text(fs@, old(self).depth())),
    {
        let ghost d = self.depth();
        let ghost t0 = self.text();
        let ghost mut acc: Seq<char> = Seq::empty();
        proof {
            assert(fs@.skip(0) =~= fs@);
            if let Ok(y) = direct_text(fs@, d) {
                assert(acc + y =~= y);
            }
            assert(t0 + acc =~= t0);
        }
        let mut i: usize = 0;
        while i < fs.len()
            invariant
                i <= fs.len(),
                d == old(self).depth(),
                t0 == old(self).text(),
                self.depth() == d,
                self.text() == t0 + acc,
                direct_text(fs@, d) == join(Ok(acc), direct_text(fs@.skip(i as int), d)),
            decreases fs.len() - i,
        {
            assert(fs@.skip(i as int)[0] == fs@[i as int]);
            assert(fs@.skip(i as int).skip(1) =~= fs@.skip(i + 1));
            let f = &fs[i];
            match f.role() {
                FieldRole::OneofMember(_) => {},
                _ => {
                    match self.write_field(f) {
                        Err(e) => {
                            return Err(e);
                        },
                        Ok(()) => {},
                    }
                    proof {
                        let t = field_text(fs@[i as int], d)->Ok_0;
                        lemma_join_ok(acc, t, direct_text(fs@.skip(i + 1), d));
                        acc = acc + t;
                    }
                },
            }
            i = i + 1;
        }
        assert(fs@.skip(i as int).len() == 0);
        assert(t0 + acc + Seq::<char>::empty() =~= t0 + acc);
        Ok(())
    }

    /// The members of the oneof group at position `i`, in declaration order.
    fn collect_members<'a>(m: &'a MessageDesc, i: usize) -> (r: Vec<&'a FieldDesc>)
        ensures
            r@.map_values(|f: &FieldDesc| *f) == members(*m, i as int),
    {
        let mut out: Vec<&FieldDesc> = Vec::new();
        let mut j: usize = 0;
        while j < m.fields.len()
            invariant
                j <= m.fields.len(),
                out@.map_values(|f: &FieldDesc| *f) == m.fields@.take(j as int).filter(member_pred(i as int)),
            decreases m.fields.len() - j,
        {
            let f = &m.fields[j];
            let ghost prev = out@.map_values(|f: &FieldDesc| *f);
            assert(m.fields@.take(j + 1).drop_last() =~= m.fields@.take(j as int));
            let is_member = match f.role() {
                FieldRole::OneofMember(k) => k >= 0 && k as usize == i,
                _ => false,
            };
            assert(is_member == member_pred(i as int)(*f));
            reveal(Seq::filter);
            assert(m.fields@.take(j + 1).last() == *f);
            assert(m.fields@.take(j + 1).filter(member_pred(i as int)) == if member_pred(i as int)(*f) {
                m.fields@.take(j as int).filter(member_pred(i as int)).push(*f)
            } else {
                m.fields@.take(j as int).filter(member_pred(i as int))
            });
            if is_member {
                out.push(f);
                assert(out@.map_values(|f: &FieldDesc| *f) =~= prev.push(*f));
            } else {
                assert(out@.map_values(|f: &FieldDesc| *f) =~= prev);
            }
            j = j + 1;
        }
        assert(m.fields@.take(j as int) =~= m.fields@);
        out
    }

    /// Renders the block of the oneof group at position `i`, if it has one.
    fn write_one_of(&mut self, m: &MessageDesc, i: usize) -> (r: Result<(), RenderError>)
        requires
            i < m.oneofs@.len(),
            old(self).depth() < usize::MAX,
        ensures
            final(self).depth() == old(self).depth(),
            wrote(old(self).text(), final(self).text(), r, oneof_text(*m, i as int, old(self).depth())),
    {
        let fields = Self::collect_members(m, i);
        if fields.len() < 2 {
            assert(Seq::<char>::empty() + self.text() =~= self.text());
            assert(self.text() + Seq::<char>::empty() =~= self.text());
            return Ok(());
        }
        let ghost d = self.depth();
        let ghost t0 = self.text();
        self.push_str_indented("");
        proof {
            reveal_strlit("");
        }
        self.push_str("oneof ");
        self.push_str(m.oneofs[i].name.as_str());
        self.push_str(" {\n");
        let ghost head = pad(d) + "oneof "@ + m.oneofs@[i as int].name@ + " {\n"@;
        assert(self.text() =~= t0 + head);
        self.indent();
        match self.write_fields(&fields) {
            Err(e) => {
                self.deindent();
                return Err(e);
            },
            Ok(()) => {},
        }
        self.deindent();
        self.push_str_indented("}\n");
        proof {
            let b = fields_text(members(*m, i as int), d + 1)->Ok_0;
            assert(self.text() =~= t0 + (head + (b + (pad(d) + "}\n"@))));
        }
        Ok(())
    }

    fn write_one_ofs(&mut self, m: &MessageDesc) -> (r: Result<(), RenderError>)
        requires
            old(self).depth() < usize::MAX,
        ensures
            final(self).depth() == old(self).depth(),
            wrote(old(self).text(), final(self).text(), r, oneofs_text(*m, 0, old(self).depth())),
    {
        let ghost d = self.depth();
        let ghost t0 = self.text();
        let ghost mut acc: Seq<char> = Seq::empty();
        proof {
            if let Ok(y) = oneofs_text(*m, 0, d) {
                assert(acc + y =~= y);
            }
            assert(t0 + acc =~= t0);
        }
        let mut i: usize = 0;
        while i < m.oneofs.len()
            invariant
                i <= m.oneofs.len(),
                d == old(self).depth(),
                d < usize::MAX,
                t0 == old(self).text(),
                self.depth() == d,
                self.text() == t0 + acc,
                oneofs_text(*m, 0, d) == join(Ok(acc), oneofs_text(*m, i as int, d)),
            decreases m.oneofs.len() - i,
        {
            match self.write_one_of(m, i) {
                Err(e) => {
                    return Err(e);
                },
                Ok(()) => {},
            }
            proof {
                let t = oneof_text(*m, i as int, d)->Ok_0;
                lemma_join_ok(acc, t, oneofs_text(*m, i + 1, d));
                acc = acc + t;
            }
            i = i + 1;
        }
        assert(t0 + acc + Seq::<char>::empty() =~= t0 + acc);
        Ok(())
    }
}


impl ProtoWriter {
    fn write_enum(&mut self, e: &EnumDesc)
        requires
            old(self).depth() < usize::MAX,
        ensures
            final(self).depth() == old(self).depth(),
            final(self).text() == old(self).text() + enum_text(*e, old(self).depth()),
    {
        let ghost d = self.depth();
        let ghost t0 = self.text();
        self.push_str_indented("enum ");
        self.push_str(e.name.as_str());
        self.push_str(" {\n");
        self.indent();
        let ghost t1 = self.text();
        let ghost vs = e.values@;
        proof {
            assert(vs.skip(0) =~= vs);
            assert(t1 + Seq::<char>::empty() =~= t1);
        }
        let mut i: usize = 0;
        while i < e.values.len()
            invariant
                i <= e.values.len(),
                vs == e.values@,
                self.depth() == d + 1,
                t1 + values_text(vs, d + 1) == self.text() + values_text(vs.skip(i as int), d + 1),
            decreases e.values.len() - i,
        {
            let v = &e.values[i];
            let ghost before = self.text();
            assert(vs.skip(i as int)[0] == vs[i as int]);
            assert(vs.skip(i as int).skip(1) =~= vs.skip(i + 1));
            self.push_str_indented(v.name.as_str());
            self.push_str(" = ");
            self.push_int(v.number);
            self.push_str(";\n");
            assert(self.text() =~= before + value_text(*v, d + 1));
            assert(before + values_text(vs.skip(i as int), d + 1) =~= self.text() + values_text(
                vs.skip(i + 1),
                d + 1,
            ));
            i = i + 1;
        }
        assert(vs.skip(i as int).len() == 0);
        self.deindent();
        self.push_str_indented("}\n\n");
        assert(self.text() =~= t0 + enum_text(*e, d));
    }

    fn write_enums(&mut self, es: &Vec<EnumDesc>)
        requires
            old(self).depth() < usize::MAX,
        ensures
            final(self).depth() == old(self).depth(),
            final(self).text() == old(self).text() + enums_text(es@, old(self).depth()),
    {
        let ghost d = self.depth();
        let ghost t0 = self.text();
        proof {
            assert(es@.skip(0) =~= es@);
            assert(t0 + Seq::<char>::empty() =~= t0);
        }
        let mut i: usize = 0;
        while i < es.len()
            invariant
                i <= es.len(),
                d == old(self).depth(),
                d < usize::MAX,
                t0 == old(self).text(),
                self.depth() == d,
                t0 + enums_text(es@, d) == self.text() + enums_text(es@.skip(i as int), d),
            decreases es.len() - i,
        {
            let ghost before = self.text();
            assert(es@.skip(i as int)[0] == es@[i as int]);
            assert(es@.skip(i as int).skip(1) =~= es@.skip(i + 1));
            self.write_enum(&es[i]);
            assert(before + enums_text(es@.skip(i as int), d) =~= self.text() + enums_text(
                es@.skip(i + 1),
                d,
            ));
            i = i + 1;
        }
        assert(es@.skip(i as int).len() == 0);
        assert(self.text() + Seq::<char>::empty() =~= self.text());
    }

    #[verifier::rlimit(50)]
    fn write_message(&mut self, m: &MessageDesc) -> (r: Result<(), RenderError>)
        requires
            old(self).depth() + height(*m) <= usize::MAX,
        ensures
            final(self).depth() == old(self).depth(),
            wrote(old(self).text(), final(self).text(), r, message_text(*m, old(self).depth())),
        decreases m,
    {
        let ghost d = self.depth();
        let ghost t0 = self.text();
        if m.reserved_names.len() > 0 {
            return Err(
                RenderError::Unsupported { construct: Construct::ReservedName, owner: m.name.clone() },
            );
        }
        if m.reserved_ranges.len() > 0 {
            return Err(
                RenderError::Unsupported { construct: Construct::ReservedRange, owner: m.name.clone() },
            );
        }
        self.push_str_indented("message ");
        self.push_str(m.name.as_str());
        self.push_str(" {\n");
        let ghost head = pad(d) + "message "@ + m.name@ + " {\n"@;
        assert(self.text() =~= t0 + head);
        self.indent();
        match self.write_messages(&m.nested) {
            Err(e) => {
                self.deindent();
                return Err(e);
            },
            Ok(()) => {},
        }
        let ghost a = messages_text(m.nested@, d + 1)->Ok_0;
        self.write_enums(&m.enums);
        let ghost b = enums_text(m.enums@, d + 1);
        match self.write_direct_fields(&m.fields) {
            Err(e) => {
                self.deindent();
                return Err(e);
            },
            Ok(()) => {},
        }
        let ghost c = direct_text(m.fields@, d + 1)->Ok_0;
        match self.write_one_ofs(m) {
            Err(e) => {
                self.deindent();
                return Err(e);
            },
            Ok(()) => {},
        }
        let ghost o = oneofs_text(*m, 0, d + 1)->Ok_0;
        self.deindent();
        self.push_str_indented("}\n\n");
        let ghost tail = pad(d) + "}\n\n"@;
        assert(self.text() =~= t0 + (head + (a + (b + (c + (o + tail))))));
        Ok(())
    }

    fn write_messages(&mut self, ms: &Vec<MessageDesc>) -> (r: Result<(), RenderError>)
        requires
            old(self).depth() + heights(ms@) <= usize::MAX,
        ensures
            final(self).depth() == old(self).depth(),
            wrote(old(self).text(), final(self).text(), r, messages_text(ms@, old(self).depth())),
        decreases ms,
    {
        let ghost d = self.depth();
        let ghost t0 = self.text();
        let ghost mut acc: Seq<char> = Seq::empty();
        proof {
            assert(ms@.skip(0) =~= ms@);
            if let Ok(y) = messages_text(ms@, d) {
                assert(acc + y =~= y);
            }
            assert(t0 + acc =~= t0);
        }
        let mut i: usize = 0;
        while i < ms.len()
            invariant
                i <= ms.len(),
                d == old(self).depth(),
                t0 == old(self).text(),
                self.depth() == d,
                self.text() == t0 + acc,
                d + heights(ms@.skip(i as int)) <= usize::MAX,
                messages_text(ms@, d) == join(Ok(acc), messages_text(ms@.skip(i as int), d)),
            decreases ms.len() - i,
        {
            assert(ms@.skip(i as int)[0] == ms@[i as int]);
            assert(ms@.skip(i as int).skip(1) =~= ms@.skip(i + 1));
            match self.write_message(&ms[i]) {
                Err(e) => {
                    return Err(e);
                },
                Ok(()) => {},
            }
            proof {
                let t = message_text(ms@[i as int], d)->Ok_0;
                lemma_join_ok(acc, t, messages_text(ms@.skip(i + 1), d));
                acc = acc + t;
            }
            i = i + 1;
        }
        assert(ms@.skip(i as int).len() == 0);
        assert(t0 + acc + Seq::<char>::empty() =~= t0 + acc);
        Ok(())
    }
}


impl ProtoWriter {
    fn write_dependencies(&mut self, deps: &Vec<Dependency>)
        ensures
            final(self).depth() == old(self).depth(),
            final(self).text() == old(self).text() + dependencies_text(deps@) + (if deps@.len() > 0 {
                "\n"@
            } else {
                Seq::empty()
            }),
    {
        let ghost t0 = self.text();
        proof {
            assert(deps@.skip(0) =~= deps@);
            assert(t0 + Seq::<char>::empty() =~= t0);
        }
        let mut i: usize = 0;
        while i < deps.len()
            invariant
                i <= deps.len(),
                t0 == old(self).text(),
                self.depth() == old(self).depth(),
                t0 + dependencies_text(deps@) == self.text() + dependencies_text(deps@.skip(i as int)),
            decreases deps.len() - i,
        {
            let dep = &deps[i];
            let ghost before = self.text();
            assert(deps@.skip(i as int)[0] == deps@[i as int]);
            assert(deps@.skip(i as int).skip(1) =~= deps@.skip(i + 1));
            self.push_str("import ");
            if dep.is_public {
                self.push_str("public ");
            }
            self.push_str("\"");
            self.push_str(dep.path.as_str());
            self.push_str("\";\n");
            assert(self.text() =~= before + dependency_text(*dep));
            assert(before + dependencies_text(deps@.skip(i as int)) =~= self.text() + dependencies_text(
                deps@.skip(i + 1),
            ));
            i = i + 1;
        }
        assert(deps@.skip(i as int).len() == 0);
        assert(self.text() + Seq::<char>::empty() =~= self.text());
        if deps.len() > 0 {
            self.push_str("\n");
        } else {
            assert(self.text() + Seq::<char>::empty() =~= self.text());
        }
    }

    /// Renders a whole file descriptor after the text written so far, at the
    /// current depth; stops at the first construct without a rendering rule.
    pub fn generate_proto_file(&mut self, proto: &FileDesc) -> (r: Result<(), RenderError>)
        requires
            old(self).depth() + heights(proto.messages@) < usize::MAX,
        ensures
            final(self).depth() == old(self).depth(),
            wrote(old(self).text(), final(self).text(), r, file_text_at(*proto, old(self).depth())),
    {
        let ghost d = self.depth();
        let ghost t0 = self.text();
        if proto.services.len() > 0 {
            return Err(
                RenderError::Unsupported { construct: Construct::Service, owner: proto.services[0].clone() },
            );
        }
        self.push_str("syntax = \"");
        self.push_str(proto.syntax.as_str());
        self.push_str("\";\n\n");
        self.push_str("package ");
        self.push_str(proto.package.as_str());
        self.push_str(";\n\n");
        self.write_dependencies(&proto.dependencies);
        let ghost h = header_text(*proto);
        assert(self.text() =~= t0 + h);
        match self.write_messages(&proto.messages) {
            Err(e) => {
                return Err(e);
            },
            Ok(()) => {},
        }
        let ghost a = messages_text(proto.messages@, d)->Ok_0;
        self.write_enums(&proto.enums);
        assert(self.text() =~= t0 + (h + (a + enums_text(proto.enums@, d))));
        Ok(())
    }
}


/// `height(m)`, saturated at `usize::MAX`.
pub fn message_height(m: &MessageDesc) -> (r: usize)
    ensures
        r == (if height(*m) < usize::MAX { height(*m) } else { usize::MAX as nat }),
    decreases m,
{
    let h = messages_height(&m.nested);
    if h > usize::MAX - 2 {
        usize::MAX
    } else {
        h + 2
    }
}

/// `heights(ms)`, saturated at `usize::MAX`.
pub fn messages_height(ms: &Vec<MessageDesc>) -> (r: usize)
    ensures
        r == (if heights(ms@) < usize::MAX { heights(ms@) } else { usize::MAX as nat }),
    decreases ms,
{
    let mut best: usize = 0;
    let mut i: usize = ms.len();
    proof {
        assert(ms@.skip(ms@.len() as int).len() == 0);
    }
    while i > 0
        invariant
            i <= ms.len(),
            best == (if heights(ms@.skip(i as int)) < usize::MAX {
                heights(ms@.skip(i as int))
            } else {
                usize::MAX as nat
            }),
        decreases i,
    {
        i = i - 1;
        assert(ms@.skip(i as int)[0] == ms@[i as int]);
        assert(ms@.skip(i as int).skip(1) =~= ms@.skip(i + 1));
        let h = message_height(&ms[i]);
        if h > best {
            best = h;
        }
    }
    assert(ms@.skip(0) =~= ms@);
    best
}

} // verus!
