use vstd::prelude::*;

use crate::json::{quote, quoted};

verus! {

pub const OPEN_BRACE: u8 = 123;
pub const CLOSE_BRACE: u8 = 125;
pub const OPEN_BRACKET: u8 = 91;
pub const CLOSE_BRACKET: u8 = 93;
pub const COMMA: u8 = 44;
pub const COLON: u8 = 58;
pub const NEWLINE: u8 = 10;

/// One member of a JSON object: the quoted name, a colon, the value's text.
pub open spec fn member_text(m: (Seq<char>, Seq<u8>)) -> Seq<u8> {
    quoted(m.0) + seq![COLON] + m.1
}

/// The members of a JSON object, separated by commas.
pub open spec fn members_text(ms: Seq<(Seq<char>, Seq<u8>)>) -> Seq<u8>
    decreases ms.len(),
{
    if ms.len() == 0 {
        Seq::empty()
    } else if ms.len() == 1 {
        member_text(ms[0])
    } else {
        members_text(ms.drop_last()) + seq![COMMA] + member_text(ms.last())
    }
}

/// A JSON object with the given members, in this order.
pub open spec fn object_text(ms: Seq<(Seq<char>, Seq<u8>)>) -> Seq<u8> {
    seq![OPEN_BRACE] + members_text(ms) + seq![CLOSE_BRACE]
}

/// The elements of a JSON list of strings, separated by commas.
pub open spec fn strings_text(ss: Seq<Seq<char>>) -> Seq<u8>
    decreases ss.len(),
{
    if ss.len() == 0 {
        Seq::empty()
    } else if ss.len() == 1 {
        quoted(ss[0])
    } else {
        strings_text(ss.drop_last()) + seq![COMMA] + quoted(ss.last())
    }
}

/// A JSON list of the given strings, in this order.
pub open spec fn list_text(ss: Seq<Seq<char>>) -> Seq<u8> {
    seq![OPEN_BRACKET] + strings_text(ss) + seq![CLOSE_BRACKET]
}

/// Appends `b` to `out`.
pub fn append_bytes(out: &mut Vec<u8>, b: &Vec<u8>)
    ensures
        final(out)@ == old(out)@ + b@,
{
    let ghost start = out@;
    let mut i: usize = 0;
    while i < b.len()
        invariant
            i <= b.len(),
            start == old(out)@,
            out@ == start + b@.take(i as int),
        decreases b.len() - i,
    {
        out.push(b[i]);
        assert(b@.take(i as int + 1) =~= b@.take(i as int).push(b@[i as int]));
        i = i + 1;
    }
    assert(b@.take(b@.len() as int) =~= b@);
}

/// The JSON object text of `members`, whose values are JSON texts already.
pub fn write_object(members: &Vec<(String, Vec<u8>)>) -> (r: Vec<u8>)
    ensures
        r@ == object_text(members.deep_view()),
{
    let ghost ms = members.deep_view();
    let mut out: Vec<u8> = Vec::new();
    out.push(OPEN_BRACE);
    let mut i: usize = 0;
    while i < members.len()
        invariant
            i <= members.len(),
            ms == members.deep_view(),
            out@ == seq![OPEN_BRACE] + members_text(ms.take(i as int)),
        decreases members.len() - i,
    {
        if i > 0 {
            out.push(COMMA);
        }
        let name = quote(members[i].0.as_str());
        append_bytes(&mut out, &name);
        out.push(COLON);
        append_bytes(&mut out, &members[i].1);
        proof {
            assert(members@[i as int].1.deep_view() =~= members@[i as int].1@);
            let t = ms.take(i as int + 1);
            assert(t.drop_last() =~= ms.take(i as int));
            assert(t.last() == ms[i as int]);
            assert(out@ =~= seq![OPEN_BRACE] + members_text(t));
        }
        i = i + 1;
    }
    out.push(CLOSE_BRACE);
    assert(ms.take(ms.len() as int) =~= ms);
    assert(out@ =~= object_text(ms));
    out
}

/// The JSON list text of `strings`.
pub fn write_string_list(strings: &Vec<String>) -> (r: Vec<u8>)
    ensures
        r@ == list_text(strings.deep_view()),
{
    let ghost ss = strings.deep_view();
    let mut out: Vec<u8> = Vec::new();
    out.push(OPEN_BRACKET);
    let mut i: usize = 0;
    while i < strings.len()
        invariant
            i <= strings.len(),
            ss == strings.deep_view(),
            out@ == seq![OPEN_BRACKET] + strings_text(ss.take(i as int)),
        decreases strings.len() - i,
    {
        if i > 0 {
            out.push(COMMA);
        }
        let s = quote(strings[i].as_str());
        append_bytes(&mut out, &s);
        proof {
            let t = ss.take(i as int + 1);
            assert(t.drop_last() =~= ss.take(i as int));
            assert(t.last() == ss[i as int]);
            assert(out@ =~= seq![OPEN_BRACKET] + strings_text(t));
        }
        i = i + 1;
    }
    out.push(CLOSE_BRACKET);
    assert(ss.take(ss.len() as int) =~= ss);
    assert(out@ =~= list_text(ss));
    out
}

} // verus!
