//! Pretty-printing of JSON values: two-space indentation, one element or
//! field per line, strings escaped as the wire format demands (quote,
//! backslash, and control characters; anything else passes through).

use vstd::prelude::*;
use crate::json::{Json, JsonV};

verus! {

broadcast use vstd::std_specs::vec::group_vec_axioms, vstd::seq::group_seq_axioms;

/// Indentation depth two levels deeper, saturating at a bound no real value
/// ever reaches.
pub open spec fn bump(ind: int) -> int {
    if ind + 2 <= 0x10000000 {
        ind + 2
    } else {
        ind
    }
}

/// `ind` spaces.
pub open spec fn spaces(ind: int) -> Seq<char> {
    Seq::new(if ind >= 0 {
        ind as nat
    } else {
        0
    }, |i: int| ' ')
}

/// The hexadecimal digit character for `d`.
pub open spec fn hex_digit(d: int) -> char {
    if d < 10 {
        crate::num::digit_char(d)
    } else if d == 10 {
        'a'
    } else if d == 11 {
        'b'
    } else if d == 12 {
        'c'
    } else if d == 13 {
        'd'
    } else if d == 14 {
        'e'
    } else {
        'f'
    }
}

/// The escape of one string character.
pub open spec fn esc_char(c: char) -> Seq<char> {
    if c == '"' {
        seq!['\\', '"']
    } else if c == '\\' {
        seq!['\\', '\\']
    } else if c == '\u{8}' {
        seq!['\\', 'b']
    } else if c == '\u{c}' {
        seq!['\\', 'f']
    } else if c == '\n' {
        seq!['\\', 'n']
    } else if c == '\r' {
        seq!['\\', 'r']
    } else if c == '\t' {
        seq!['\\', 't']
    } else if (c as u32) < 32 {
        seq!['\\', 'u', '0', '0', hex_digit(c as int / 16), hex_digit(c as int % 16)]
    } else {
        seq![c]
    }
}

/// The escape of a whole string, quotes not included.
pub open spec fn esc_str(s: Seq<char>) -> Seq<char>
    decreases s.len(),
{
    if s.len() == 0 {
        Seq::empty()
    } else {
        esc_char(s[0]) + esc_str(s.skip(1))
    }
}

/// A string rendered as a JSON string literal.
pub open spec fn quoted(s: Seq<char>) -> Seq<char> {
    seq!['"'] + esc_str(s) + seq!['"']
}

/// The pretty text of a value at indentation `ind`.
pub open spec fn pretty_v(v: JsonV, ind: int) -> Seq<char>
    decreases v, 0int, 0int,
{
    match v {
        JsonV::Null => "null"@,
        JsonV::Bool(b) => if b {
            "true"@
        } else {
            "false"@
        },
        JsonV::Int(n) => crate::num::int_rep(n),
        JsonV::Dec(s) => s,
        JsonV::Str(s) => quoted(s),
        JsonV::Arr(items) => if items.len() == 0 {
            "[]"@
        } else {
            seq!['[', '\n'] + pretty_items(items, bump(ind), items.len() as int) + seq!['\n']
                + spaces(ind) + seq![']']
        },
        JsonV::Obj(fields) => if fields.len() == 0 {
            "{}"@
        } else {
            seq!['{', '\n'] + pretty_fields(fields, bump(ind), fields.len() as int) + seq!['\n']
                + spaces(ind) + seq!['}']
        },
    }
}

/// The pretty text of the first `k` array elements, separators included.
pub open spec fn pretty_items(items: Seq<JsonV>, ind: int, k: int) -> Seq<char>
    decreases items, 1int, k,
{
    if k <= 0 || k > items.len() {
        Seq::empty()
    } else if k == 1 {
        spaces(ind) + pretty_v(items[0], ind)
    } else {
        pretty_items(items, ind, k - 1) + seq![',', '\n'] + spaces(ind) + pretty_v(
            items[k - 1],
            ind,
        )
    }
}

/// The pretty text of the first `k` object fields, separators included.
pub open spec fn pretty_fields(fields: Seq<(Seq<char>, JsonV)>, ind: int, k: int) -> Seq<char>
    decreases fields, 1int, k,
{
    if k <= 0 || k > fields.len() {
        Seq::empty()
    } else if k == 1 {
        spaces(ind) + quoted(fields[0].0) + ": "@ + pretty_v(fields[0].1, ind)
    } else {
        pretty_fields(fields, ind, k - 1) + seq![',', '\n'] + spaces(ind) + quoted(
            fields[k - 1].0,
        ) + ": "@ + pretty_v(fields[k - 1].1, ind)
    }
}

fn hex_digit_exec(d: u32) -> (c: char)
    requires
        d < 16,
    ensures
        c == hex_digit(d as int),
{
    if d == 0 {
        '0'
    } else if d == 1 {
        '1'
    } else if d == 2 {
        '2'
    } else if d == 3 {
        '3'
    } else if d == 4 {
        '4'
    } else if d == 5 {
        '5'
    } else if d == 6 {
        '6'
    } else if d == 7 {
        '7'
    } else if d == 8 {
        '8'
    } else if d == 9 {
        '9'
    } else if d == 10 {
        'a'
    } else if d == 11 {
        'b'
    } else if d == 12 {
        'c'
    } else if d == 13 {
        'd'
    } else if d == 14 {
        'e'
    } else {
        'f'
    }
}

/// Appends `ind` spaces.
fn push_spaces(out: &mut Vec<char>, ind: usize)
    ensures
        final(out)@ == old(out)@ + spaces(ind as int),
{
    let mut i: usize = 0;
    while i < ind
        invariant
            i <= ind,
            out@ == old(out)@ + spaces(i as int),
        decreases ind - i,
    {
        out.push(' ');
        i = i + 1;
        proof {
            assert(out@ =~= old(out)@ + spaces(i as int));
        }
    }
    proof {
        assert(out@ =~= old(out)@ + spaces(ind as int));
    }
}

/// Appends the escape of one character.
fn push_esc_char(out: &mut Vec<char>, c: char)
    ensures
        final(out)@ == old(out)@ + esc_char(c),
{
    if c == '"' {
        out.push('\\');
        out.push('"');
    } else if c == '\\' {
        out.push('\\');
        out.push('\\');
    } else if c == '\u{8}' {
        out.push('\\');
        out.push('b');
    } else if c == '\u{c}' {
        out.push('\\');
        out.push('f');
    } else if c == '\n' {
        out.push('\\');
        out.push('n');
    } else if c == '\r' {
        out.push('\\');
        out.push('r');
    } else if c == '\t' {
        out.push('\\');
        out.push('t');
    } else if (c as u32) < 32 {
        out.push('\\');
        out.push('u');
        out.push('0');
        out.push('0');
        let h = hex_digit_exec((c as u32) / 16);
        out.push(h);
        let l = hex_digit_exec((c as u32) % 16);
        out.push(l);
    } else {
        out.push(c);
    }
    proof {
        assert(out@ =~= old(out)@ + esc_char(c));
    }
}

/// Appends a quoted, escaped string literal.
fn push_quoted(out: &mut Vec<char>, s: &str)
    ensures
        final(out)@ == old(out)@ + quoted(s@),
{
    let cs = crate::text::chars_vec(s);
    out.push('"');
    let n = cs.len();
    let mut i: usize = 0;
    while i < n
        invariant
            i <= n,
            n == cs.len(),
            cs@ == s@,
            out@ == old(out)@ + seq!['"'] + esc_str(s@.take(i as int)),
        decreases n - i,
    {
        let ghost pre = out@;
        push_esc_char(out, cs[i]);
        i = i + 1;
        proof {
            lemma_esc_str_snoc(s@, i as int);
            assert(out@ =~= old(out)@ + seq!['"'] + esc_str(s@.take(i as int)));
        }
    }
    out.push('"');
    proof {
        assert(s@.take(n as int) =~= s@);
        assert(out@ =~= old(out)@ + quoted(s@));
    }
}

/// Escaping a prefix one longer appends the escape of the next character.
proof fn lemma_esc_str_snoc(s: Seq<char>, i: int)
    requires
        0 < i <= s.len(),
    ensures
        esc_str(s.take(i)) == esc_str(s.take(i - 1)) + esc_char(s[i - 1]),
    decreases i,
{
    if i == 1 {
        assert(s.take(1)[0] == s[0]);
        assert(s.take(1).skip(1) =~= Seq::<char>::empty());
        assert(esc_str(s.take(1)) == esc_char(s.take(1)[0]) + esc_str(s.take(1).skip(1)));
        assert(esc_str(Seq::<char>::empty()) == Seq::<char>::empty());
        assert(esc_char(s[0]) + Seq::<char>::empty() =~= esc_char(s[0]));
        assert(s.take(0) =~= Seq::<char>::empty());
        assert(Seq::<char>::empty() + esc_char(s[0]) =~= esc_char(s[0]));
    } else {
        lemma_esc_str_snoc(s.skip(1), i - 1);
        assert(s.take(i)[0] == s[0]);
        assert(s.take(i).skip(1) =~= s.skip(1).take(i - 1));
        assert(s.take(i - 1)[0] == s[0]);
        assert(s.take(i - 1).skip(1) =~= s.skip(1).take(i - 2));
        assert(s.skip(1)[i - 2] == s[i - 1]);
        assert(esc_str(s.take(i)) =~= esc_char(s[0]) + esc_str(s.skip(1).take(i - 1)));
        assert(esc_str(s.take(i - 1)) + esc_char(s[i - 1]) =~= esc_char(s[0]) + (esc_str(
            s.skip(1).take(i - 2),
        ) + esc_char(s.skip(1)[i - 2])));
    }
}

/// Appends the pretty text of `j` at indentation `ind`.
#[verifier::rlimit(60)]
fn push_pretty(out: &mut Vec<char>, j: &Json, ind: usize)
    requires
        ind <= 0x10000000,
    ensures
        final(out)@ == old(out)@ + pretty_v(j.v(), ind as int),
    decreases j,
{
    match j {
        Json::Null => {
            out.push('n');
            out.push('u');
            out.push('l');
            out.push('l');
            proof {
                reveal_strlit("null");
                assert(out@ =~= old(out)@ + "null"@);
            }
        },
        Json::Bool(b) => {
            if *b {
                out.push('t');
                out.push('r');
                out.push('u');
                out.push('e');
                proof {
                    reveal_strlit("true");
                    assert(out@ =~= old(out)@ + "true"@);
                }
            } else {
                out.push('f');
                out.push('a');
                out.push('l');
                out.push('s');
                out.push('e');
                proof {
                    reveal_strlit("false");
                    assert(out@ =~= old(out)@ + "false"@);
                }
            }
        },
        Json::Int(n) => {
            crate::num::push_dec_i64(out, *n);
        },
        Json::Dec(s) => {
            let cs = crate::text::chars_vec(s.as_str());
            let n = cs.len();
            let mut i: usize = 0;
            while i < n
                invariant
                    i <= n,
                    n == cs.len(),
                    cs@ == s@,
                    out@ == old(out)@ + s@.take(i as int),
                decreases n - i,
            {
                out.push(cs[i]);
                i = i + 1;
                proof {
                    assert(out@ =~= old(out)@ + s@.take(i as int));
                }
            }
            proof {
                assert(out@ =~= old(out)@ + s@);
            }
        },
        Json::Str(s) => {
            push_quoted(out, s.as_str());
        },
        Json::Arr(items) => {
            let n = items.len();
            if n == 0 {
                out.push('[');
                out.push(']');
                proof {
                    reveal_strlit("[]");
                    assert(out@ =~= old(out)@ + "[]"@);
                }
            } else {
                let inner = if ind + 2 <= 0x10000000 {
                    ind + 2
                } else {
                    ind
                };
                out.push('[');
                out.push('\n');
                let ghost items_v = j.v()->Arr_0;
                let mut i: usize = 0;
                while i < n
                    invariant
                        i <= n,
                        n == items.len(),
                        n >= 1,
                        inner == bump(ind as int),
                        inner <= 0x10000000,
                        items_v == j.v()->Arr_0,
                        items_v.len() == n,
                        j matches Json::Arr(it) && it == items,
                        forall|p: int| 0 <= p < n ==> #[trigger] items_v[p] == items@[p].v(),
                        out@ == old(out)@ + seq!['[', '\n'] + pretty_items(
                            items_v,
                            inner as int,
                            i as int,
                        ),
                    decreases n - i,
                {
                    if i > 0 {
                        out.push(',');
                        out.push('\n');
                    }
                    push_spaces(out, inner);
                    push_pretty(out, &items[i], inner);
                    i = i + 1;
                    proof {
                        assert(out@ =~= old(out)@ + seq!['[', '\n'] + pretty_items(
                            items_v,
                            inner as int,
                            i as int,
                        ));
                    }
                }
                out.push('\n');
                push_spaces(out, ind);
                out.push(']');
                proof {
                    assert(out@ =~= old(out)@ + pretty_v(j.v(), ind as int));
                }
            }
        },
        Json::Obj(fields) => {
            let n = fields.len();
            if n == 0 {
                out.push('{');
                out.push('}');
                proof {
                    reveal_strlit("{}");
                    assert(out@ =~= old(out)@ + "{}"@);
                }
            } else {
                let inner = if ind + 2 <= 0x10000000 {
                    ind + 2
                } else {
                    ind
                };
                out.push('{');
                out.push('\n');
                let ghost fields_v = j.v()->Obj_0;
                let mut i: usize = 0;
                while i < n
                    invariant
                        i <= n,
                        n == fields.len(),
                        n >= 1,
                        inner == bump(ind as int),
                        inner <= 0x10000000,
                        fields_v == j.v()->Obj_0,
                        fields_v.len() == n,
                        j matches Json::Obj(f) && f == fields,
                        forall|p: int|
                            0 <= p < n ==> #[trigger] fields_v[p] == (
                                fields@[p].0@,
                                fields@[p].1.v(),
                            ),
                        out@ == old(out)@ + seq!['{', '\n'] + pretty_fields(
                            fields_v,
                            inner as int,
                            i as int,
                        ),
                    decreases n - i,
                {
                    if i > 0 {
                        out.push(',');
                        out.push('\n');
                    }
                    push_spaces(out, inner);
                    push_quoted(out, fields[i].0.as_str());
                    out.push(':');
                    out.push(' ');
                    proof {
                        reveal_strlit(": ");
                        assert(seq![':', ' '] =~= ": "@);
                    }
                    push_pretty(out, &fields[i].1, inner);
                    i = i + 1;
                    proof {
                        assert(out@ =~= old(out)@ + seq!['{', '\n'] + pretty_fields(
                            fields_v,
                            inner as int,
                            i as int,
                        ));
                    }
                }
                out.push('\n');
                push_spaces(out, ind);
                out.push('}');
                proof {
                    assert(out@ =~= old(out)@ + pretty_v(j.v(), ind as int));
                }
            }
        },
    }
}

/// The pretty text of a value, as the content envelope embeds it.
pub fn to_pretty_string(j: &Json) -> (r: String)
    ensures
        r@ == pretty_v(j.v(), 0),
{
    let mut out: Vec<char> = Vec::new();
    push_pretty(&mut out, j, 0);
    crate::text::string_from_chars(&out)
}

} // verus!
