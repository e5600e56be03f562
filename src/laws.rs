use vstd::prelude::*;
use crate::decompile::{
    direct_fields, direct_pred, direct_text, fields_text, file_text, label_text, member_pred,
    members, message_text, messages_text, oneof_text, oneofs_text, Construct, RenderError,
};
use crate::descriptor::{FieldDesc, FieldType, FileDesc, Label, MessageDesc};
use crate::text::pad;

verus! {

broadcast use vstd::seq::group_seq_axioms, vstd::seq_lib::group_filter_ensures;

proof fn lemma_filter_cons(s: Seq<FieldDesc>, p: spec_fn(FieldDesc) -> bool)
    requires
        s.len() > 0,
    ensures
        s.filter(p) == if p(s[0]) {
            seq![s[0]] + s.skip(1).filter(p)
        } else {
            s.skip(1).filter(p)
        },
{
    let head = seq![s[0]];
    assert(s =~= head + s.skip(1));
    Seq::filter_distributes_over_add(head, s.skip(1), p);
    reveal_with_fuel(Seq::filter, 2);
    assert(head.drop_last() =~= Seq::<FieldDesc>::empty());
    if p(s[0]) {
        assert(head.filter(p) =~= head);
    } else {
        assert(head.filter(p) =~= Seq::<FieldDesc>::empty());
        assert(head.filter(p) + s.skip(1).filter(p) =~= s.skip(1).filter(p));
    }
}

proof fn lemma_direct_text_filter(s: Seq<FieldDesc>, d: nat)
    ensures
        direct_text(s, d) == fields_text(s.filter(direct_pred()), d),
    decreases s.len(),
{
    reveal(Seq::filter);
    if s.len() > 0 {
        lemma_direct_text_filter(s.skip(1), d);
        lemma_filter_cons(s, direct_pred());
        let fs = s.filter(direct_pred());
        if s[0].is_direct() {
            assert(fs[0] == s[0]);
            assert(fs.skip(1) =~= s.skip(1).filter(direct_pred()));
        }
    }
}

/// The fields rendered in place are exactly the fields that are presence
/// tracked or belong to no oneof, in declaration order: the single pass over
/// the declared fields yields the lines of that filtered sequence.
pub proof fn law_direct_fields_in_declaration_order(m: MessageDesc, d: nat)
    ensures
        direct_text(m.fields@, d) == fields_text(direct_fields(m), d),
        forall|k: int|
            0 <= k < m.fields@.len() && (m.fields@[k].proto3_optional || m.fields@[k].oneof_index is None)
                ==> #[trigger] direct_fields(m).contains(m.fields@[k]),
        forall|f: FieldDesc|
            #[trigger] direct_fields(m).contains(f) ==> m.fields@.contains(f) && (f.proto3_optional
                || f.oneof_index is None),
{
    lemma_direct_text_filter(m.fields@, d);
    assert forall|f: FieldDesc| #[trigger] direct_fields(m).contains(f) implies m.fields@.contains(f)
        && (f.proto3_optional || f.oneof_index is None) by {
        m.fields@.lemma_filter_contains_rev(direct_pred(), f);
        let k = choose|k: int| 0 <= k < direct_fields(m).len() && direct_fields(m)[k] == f;
        assert(direct_pred()(direct_fields(m)[k]));
    }
}

/// A oneof group whose only field is presence tracked gets no block: that
/// field is rendered in place, with the `optional` word.
pub proof fn law_single_member_group_inline(m: MessageDesc, i: int, k: int, d: nat)
    requires
        0 <= i < m.oneofs@.len(),
        i <= i32::MAX,
        0 <= k < m.fields@.len(),
        m.fields@[k].oneof_index == Some(i as i32),
        m.fields@[k].proto3_optional,
        m.fields@[k].label == Some(Label::Optional),
        forall|j: int| 0 <= j < m.fields@.len() && j != k ==> m.fields@[j].oneof_index != Some(i as i32),
    ensures
        oneof_text(m, i, d) == Ok::<Seq<char>, RenderError>(Seq::empty()),
        direct_fields(m).contains(m.fields@[k]),
        label_text(m.fields@[k]) == "optional "@,
{
    law_direct_fields_in_declaration_order(m, d);
    if members(m, i).len() > 0 {
        let x = members(m, i)[0];
        assert(member_pred(i)(x));
        m.fields@.lemma_filter_contains_rev(member_pred(i), x);
        let j = choose|j: int| 0 <= j < m.fields@.len() && m.fields@[j] == x;
        assert(false);
    }
}

/// A oneof group of two or more members renders as one block that holds its
/// members in declaration order; none of them is rendered in place or in the
/// block of another group.
pub proof fn law_oneof_block(m: MessageDesc, i: int, d: nat)
    requires
        0 <= i < m.oneofs@.len(),
        members(m, i).len() >= 2,
    ensures
        oneof_text(m, i, d) == (match fields_text(members(m, i), d + 1) {
            Ok(b) => Ok(pad(d) + "oneof "@ + m.oneofs@[i].name@ + " {\n"@ + b + pad(d) + "}\n"@),
            Err(e) => Err(e),
        }),
        members(m, i) == m.fields@.filter(|f: FieldDesc| !f.proto3_optional && f.oneof_index == Some(i as i32)),
        forall|f: FieldDesc| #[trigger] members(m, i).contains(f) ==> !direct_fields(m).contains(f),
        forall|f: FieldDesc, j: int|
            #[trigger] members(m, i).contains(f) && j != i ==> !#[trigger] members(m, j).contains(f),
{
    let mi = members(m, i);
    if let Ok(b) = fields_text(mi, d + 1) {
        assert(pad(d) + "oneof "@ + m.oneofs@[i].name@ + " {\n"@ + (b + (pad(d) + "}\n"@))
            =~= pad(d) + "oneof "@ + m.oneofs@[i].name@ + " {\n"@ + b + pad(d) + "}\n"@);
    }
    assert(0 <= i <= i32::MAX) by {
        assert(member_pred(i)(mi[0]));
    }
    assert(member_pred(i) =~= (|f: FieldDesc| !f.proto3_optional && f.oneof_index == Some(i as i32)));
    assert forall|f: FieldDesc| #[trigger] mi.contains(f) implies !direct_fields(m).contains(f) by {
        let k = choose|k: int| 0 <= k < mi.len() && mi[k] == f;
        assert(member_pred(i)(mi[k]));
        if direct_fields(m).contains(f) {
            let q = choose|q: int| 0 <= q < direct_fields(m).len() && direct_fields(m)[q] == f;
            assert(direct_pred()(direct_fields(m)[q]));
        }
    }
    assert forall|f: FieldDesc, j: int| #[trigger] mi.contains(f) && j != i implies !#[trigger] members(m, j).contains(f) by {
        let k = choose|k: int| 0 <= k < mi.len() && mi[k] == f;
        assert(member_pred(i)(mi[k]));
        if members(m, j).contains(f) {
            let q = choose|q: int| 0 <= q < members(m, j).len() && members(m, j)[q] == f;
            assert(member_pred(j)(members(m, j)[q]));
        }
    }
}

/// A field with a type that has a rendering rule.
pub open spec fn field_ok(f: FieldDesc) -> bool {
    f.ty is Some && f.ty != Some(FieldType::Group)
}

/// A message without reserved names or ranges, whose nested messages are
/// supported and whose rendered fields all have a supported type.
pub open spec fn message_ok(m: MessageDesc) -> bool
    decreases m,
{
    &&& m.reserved_names@.len() == 0
    &&& m.reserved_ranges@.len() == 0
    &&& forall|k: int| 0 <= k < m.nested@.len() ==> message_ok(#[trigger] m.nested@[k])
    &&& forall|k: int|
        0 <= k < m.fields@.len() && m.fields@[k].is_direct() ==> field_ok(#[trigger] m.fields@[k])
    &&& forall|i: int, k: int|
        0 <= i < m.oneofs@.len() && members(m, i).len() >= 2 && 0 <= k < m.fields@.len()
            && #[trigger] m.fields@[k].is_member_of(i) ==> field_ok(m.fields@[k])
}

/// A file without services whose messages are all supported.
pub open spec fn file_ok(f: FileDesc) -> bool {
    &&& f.services@.len() == 0
    &&& forall|k: int| 0 <= k < f.messages@.len() ==> message_ok(#[trigger] f.messages@[k])
}

proof fn lemma_fields_ok(s: Seq<FieldDesc>, d: nat)
    ensures
        fields_text(s, d) is Ok <==> forall|k: int| 0 <= k < s.len() ==> field_ok(#[trigger] s[k]),
    decreases s.len(),
{
    if s.len() > 0 {
        lemma_fields_ok(s.skip(1), d);
        if forall|k: int| 0 <= k < s.skip(1).len() ==> field_ok(#[trigger] s.skip(1)[k]) {
            assert forall|k: int| 0 <= k < s.len() implies field_ok(#[trigger] s[k]) || !field_ok(s[0]) by {
                if k > 0 {
                    assert(s[k] == s.skip(1)[k - 1]);
                }
            }
        } else {
            let k = choose|k: int| 0 <= k < s.skip(1).len() && !field_ok(#[trigger] s.skip(1)[k]);
            assert(s[k + 1] == s.skip(1)[k]);
        }
    }
}

proof fn lemma_direct_ok(s: Seq<FieldDesc>, d: nat)
    ensures
        direct_text(s, d) is Ok <==> forall|k: int|
            0 <= k < s.len() && s[k].is_direct() ==> field_ok(#[trigger] s[k]),
    decreases s.len(),
{
    if s.len() > 0 {
        lemma_direct_ok(s.skip(1), d);
        if forall|k: int| 0 <= k < s.skip(1).len() && s.skip(1)[k].is_direct() ==> field_ok(#[trigger] s.skip(1)[k]) {
            assert forall|k: int| 0 <= k < s.len() && s[k].is_direct() implies field_ok(#[trigger] s[k])
                || (s[0].is_direct() && !field_ok(s[0])) by {
                if k > 0 {
                    assert(s[k] == s.skip(1)[k - 1]);
                }
            }
        } else {
            let k = choose|k: int|
                0 <= k < s.skip(1).len() && s.skip(1)[k].is_direct() && !field_ok(#[trigger] s.skip(1)[k]);
            assert(s[k + 1] == s.skip(1)[k]);
        }
    }
}

proof fn lemma_oneof_ok(m: MessageDesc, i: int, d: nat)
    requires
        0 <= i < m.oneofs@.len(),
    ensures
        oneof_text(m, i, d) is Ok <==> (members(m, i).len() >= 2 ==> forall|k: int|
            0 <= k < m.fields@.len() && #[trigger] m.fields@[k].is_member_of(i) ==> field_ok(m.fields@[k])),
{
    let mi = members(m, i);
    lemma_fields_ok(mi, d + 1);
    if mi.len() >= 2 {
        if forall|q: int| 0 <= q < mi.len() ==> field_ok(#[trigger] mi[q]) {
            assert forall|k: int| 0 <= k < m.fields@.len() && #[trigger] m.fields@[k].is_member_of(i)
                implies field_ok(m.fields@[k]) by {
                assert(member_pred(i)(m.fields@[k]));
                assert(mi.contains(m.fields@[k]));
            }
        } else {
            let q = choose|q: int| 0 <= q < mi.len() && !field_ok(#[trigger] mi[q]);
            assert(member_pred(i)(mi[q]));
            m.fields@.lemma_filter_contains_rev(member_pred(i), mi[q]);
            let k = choose|k: int| 0 <= k < m.fields@.len() && m.fields@[k] == mi[q];
            assert(m.fields@[k].is_member_of(i));
        }
    }
}

proof fn lemma_oneofs_ok(m: MessageDesc, i: int, d: nat)
    requires
        0 <= i,
    ensures
        oneofs_text(m, i, d) is Ok <==> forall|j: int| i <= j < m.oneofs@.len() ==> (#[trigger] oneof_text(m, j, d)) is Ok,
    decreases m.oneofs@.len() - i,
{
    if i < m.oneofs@.len() {
        lemma_oneofs_ok(m, i + 1, d);
    }
}

proof fn lemma_message_ok(m: MessageDesc, d: nat)
    ensures
        message_text(m, d) is Ok <==> message_ok(m),
    decreases m,
{
    if m.reserved_names@.len() == 0 && m.reserved_ranges@.len() == 0 {
        lemma_messages_ok(m.nested@, d + 1);
        lemma_direct_ok(m.fields@, d + 1);
        lemma_oneofs_ok(m, 0, d + 1);
        assert forall|i: int| 0 <= i < m.oneofs@.len() implies (oneof_text(m, i, d + 1) is Ok
            <==> (members(m, i).len() >= 2 ==> forall|k: int|
            0 <= k < m.fields@.len() && #[trigger] m.fields@[k].is_member_of(i) ==> field_ok(m.fields@[k]))) by {
            lemma_oneof_ok(m, i, d + 1);
        }
    }
}

proof fn lemma_messages_ok(ms: Seq<MessageDesc>, d: nat)
    ensures
        messages_text(ms, d) is Ok <==> forall|k: int| 0 <= k < ms.len() ==> message_ok(#[trigger] ms[k]),
    decreases ms,
{
    if ms.len() > 0 {
        lemma_message_ok(ms[0], d);
        lemma_messages_ok(ms.skip(1), d);
        if forall|k: int| 0 <= k < ms.skip(1).len() ==> message_ok(#[trigger] ms.skip(1)[k]) {
            assert forall|k: int| 0 <= k < ms.len() implies message_ok(#[trigger] ms[k]) || !message_ok(ms[0]) by {
                if k > 0 {
                    assert(ms[k] == ms.skip(1)[k - 1]);
                }
            }
        } else {
            let k = choose|k: int| 0 <= k < ms.skip(1).len() && !message_ok(#[trigger] ms.skip(1)[k]);
            assert(ms[k + 1] == ms.skip(1)[k]);
        }
    }
}

/// A file renders without error exactly when it holds no construct that
/// lacks a rendering rule: no service, no reserved name or range, and no
/// rendered field without a type or with the group encoding.
pub proof fn law_supported_files_render(f: FileDesc)
    ensures
        file_text(f) is Ok <==> file_ok(f),
{
    lemma_messages_ok(f.messages@, 0);
}

/// Each unsupported construct stops the rendering of its whole file: a
/// service in the file, or anywhere in a message tree a reserved name or
/// range, or a field rendered in place whose type is missing or group encoded.
pub proof fn law_unsupported_constructs_abort(f: FileDesc, m: MessageDesc)
    ensures
        f.services@.len() > 0 ==> file_text(f) == Err::<Seq<char>, RenderError>(
            RenderError::Unsupported { construct: Construct::Service, owner: f.services@[0] },
        ),
        forall|t: int| 0 <= t < f.messages@.len() && !message_ok(#[trigger] f.messages@[t]) ==> file_text(f) is Err,
        m.reserved_names@.len() > 0 || m.reserved_ranges@.len() > 0 ==> !message_ok(m),
        forall|k: int| 0 <= k < m.fields@.len() && m.fields@[k].is_direct() && !field_ok(#[trigger] m.fields@[k])
            ==> !message_ok(m),
        forall|k: int| 0 <= k < m.nested@.len() && !message_ok(#[trigger] m.nested@[k]) ==> !message_ok(m),
{
    law_supported_files_render(f);
}

} // verus!
