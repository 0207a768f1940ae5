//! The event table: lines of `index,id,hash` with the id in hexadecimal and
//! the hash flag set by "1".
use vstd::prelude::*;
use vstd::string::StrSliceExecFns;
use crate::events::push_char;
use crate::model::DeobfuscateError;

verus! {

/// One line of the event table.
pub struct EventRecord {
    pub index: String,
    pub id: u32,
    pub hash: bool,
}

/// The plain value of a record: index, id and hash flag.
pub open spec fn record_view(r: EventRecord) -> (Seq<char>, u32, bool) {
    (r.index@, r.id, r.hash)
}

/// The pieces of `t` between the separators `sep`, the piece `cur` carried
/// in front of the first.
pub open spec fn split_from(t: Seq<char>, sep: char, cur: Seq<char>) -> Seq<Seq<char>>
    decreases t.len(),
{
    if t.len() == 0 {
        seq![cur]
    } else if t[0] == sep {
        seq![cur] + split_from(t.drop_first(), sep, Seq::empty())
    } else {
        split_from(t.drop_first(), sep, cur.push(t[0]))
    }
}

/// The pieces of `t` between the separators `sep`; empty pieces included.
pub open spec fn split(t: Seq<char>, sep: char) -> Seq<Seq<char>> {
    split_from(t, sep, Seq::empty())
}

/// The value of a hexadecimal digit.
pub open spec fn hex_digit(c: char) -> Option<nat> {
    if '0' <= c <= '9' {
        Some((c as nat - '0' as nat) as nat)
    } else if 'a' <= c <= 'f' {
        Some((c as nat - 'a' as nat + 10) as nat)
    } else if 'A' <= c <= 'F' {
        Some((c as nat - 'A' as nat + 10) as nat)
    } else {
        None
    }
}

/// The number that the hexadecimal digits `s` write, most significant first.
pub open spec fn hex_number(s: Seq<char>) -> nat
    decreases s.len(),
{
    if s.len() == 0 {
        0
    } else {
        hex_number(s.drop_last()) * 16 + hex_digit(s.last()).unwrap_or(0)
    }
}

/// The 32-bit value of one to eight hexadecimal digits.
pub open spec fn hex_value(s: Seq<char>) -> Option<u32> {
    if 1 <= s.len() <= 8 && forall|i: int| 0 <= i < s.len() ==> #[trigger] hex_digit(s[i]) is Some {
        Some(hex_number(s) as u32)
    } else {
        None
    }
}

/// The record that a line states: three comma-separated fields, the second
/// a hexadecimal id; the hash flag is set where the third field is "1".
pub open spec fn parse_record(line: Seq<char>) -> Option<(Seq<char>, u32, bool)> {
    let fields = split(line, ',');
    if fields.len() == 3 && hex_value(fields[1]) is Some {
        Some((fields[0], hex_value(fields[1]).unwrap(), fields[2] == seq!['1']))
    } else {
        None
    }
}

/// The records of `lines`, empty lines skipped; `None` where a line is no record.
pub open spec fn parse_lines(lines: Seq<Seq<char>>) -> Option<Seq<(Seq<char>, u32, bool)>>
    decreases lines.len(),
{
    if lines.len() == 0 {
        Some(Seq::empty())
    } else {
        match parse_lines(lines.drop_last()) {
            None => None,
            Some(prev) => if lines.last().len() == 0 {
                Some(prev)
            } else {
                match parse_record(lines.last()) {
                    Some(r) => Some(prev.push(r)),
                    None => None,
                }
            },
        }
    }
}

/// The pieces of `t` between the separators `sep`.
fn split_chars(t: &Vec<char>, sep: char) -> (r: Vec<Vec<char>>)
    ensures
        r@.map_values(|v: Vec<char>| v@) == split(t@, sep),
{
    let mut out: Vec<Vec<char>> = Vec::new();
    let mut cur: Vec<char> = Vec::new();
    let mut i: usize = 0;
    proof {
        assert(t@.subrange(0, t@.len() as int) =~= t@);
        assert(out@.map_values(|v: Vec<char>| v@) + split_from(t@, sep, cur@) =~= split(t@, sep));
    }
    while i < t.len()
        invariant
            i <= t@.len(),
            out@.map_values(|v: Vec<char>| v@) + split_from(t@.subrange(i as int, t@.len() as int), sep, cur@)
                == split(t@, sep),
        decreases t@.len() - i,
    {
        let ghost rest = t@.subrange(i as int, t@.len() as int);
        proof {
            assert(rest.drop_first() =~= t@.subrange(i + 1, t@.len() as int));
        }
        let c = t[i];
        if c == sep {
            let ghost before = out@;
            out.push(cur);
            cur = Vec::new();
            proof {
                assert(out@.map_values(|v: Vec<char>| v@) =~= before.map_values(|v: Vec<char>| v@).push(out@.last()@));
                assert(out@.map_values(|v: Vec<char>| v@) + split_from(t@.subrange(i + 1, t@.len() as int), sep, cur@)
                    =~= before.map_values(|v: Vec<char>| v@) + split_from(rest, sep, out@.last()@));
            }
        } else {
            cur.push(c);
        }
        i = i + 1;
    }
    let ghost before = out@;
    out.push(cur);
    proof {
        assert(t@.subrange(i as int, t@.len() as int) =~= Seq::<char>::empty());
        assert(out@.map_values(|v: Vec<char>| v@) =~= before.map_values(|v: Vec<char>| v@).push(out@.last()@));
    }
    out
}

/// The value of the hexadecimal digit `c`.
fn hex_digit_value(c: char) -> (r: Option<u32>)
    ensures
        r matches Some(v) ==> hex_digit(c) == Some(v as nat) && v < 16,
        r is None ==> hex_digit(c) is None,
{
    if '0' <= c && c <= '9' {
        Some((c as u32) - ('0' as u32))
    } else if 'a' <= c && c <= 'f' {
        Some((c as u32) - ('a' as u32) + 10)
    } else if 'A' <= c && c <= 'F' {
        Some((c as u32) - ('A' as u32) + 10)
    } else {
        None
    }
}

/// Sixteen to the power `n`.
pub open spec fn pow16(n: nat) -> nat
    decreases n,
{
    if n == 0 {
        1
    } else {
        16 * pow16((n - 1) as nat)
    }
}

/// The 32-bit value of one to eight hexadecimal digits.
pub fn parse_hex(s: &Vec<char>) -> (r: Option<u32>)
    ensures
        r == hex_value(s@),
{
    if s.len() == 0 || s.len() > 8 {
        return None;
    }
    let mut acc: u32 = 0;
    let mut k: usize = 0;
    proof {
        assert(s@.subrange(0, 0) =~= Seq::<char>::empty());
    }
    while k < s.len()
        invariant
            1 <= s@.len() <= 8,
            k <= s@.len(),
            forall|i: int| 0 <= i < k ==> #[trigger] hex_digit(s@[i]) is Some,
            acc as nat == hex_number(s@.subrange(0, k as int)),
            (acc as nat) < pow16(k as nat),
            pow16(k as nat) * pow16((8 - k) as nat) == pow16(8),
        decreases s@.len() - k,
    {
        let d = match hex_digit_value(s[k]) {
            Some(d) => d,
            None => {
                return None;
            },
        };
        proof {
            assert(s@.subrange(0, k + 1).drop_last() =~= s@.subrange(0, k as int));
            assert(pow16((8 - k) as nat) == 16 * pow16((8 - k - 1) as nat));
            assert(pow16((k + 1) as nat) == 16 * pow16(k as nat));
            assert(pow16(8) == 0x1_0000_0000) by {
                reveal_with_fuel(pow16, 9);
            }
            assert(pow16((8 - k - 1) as nat) >= 1) by {
                lemma_pow16_positive((8 - k - 1) as nat);
            }
            assert(acc as nat * 16 + d < pow16((k + 1) as nat)) by (nonlinear_arith)
                requires
                    (acc as nat) < pow16(k as nat),
                    d < 16,
                    pow16((k + 1) as nat) == 16 * pow16(k as nat),
            ;
            assert(pow16((k + 1) as nat) * pow16((8 - k - 1) as nat) == pow16(8)) by (nonlinear_arith)
                requires
                    pow16(k as nat) * pow16((8 - k) as nat) == pow16(8),
                    pow16((8 - k) as nat) == 16 * pow16((8 - k - 1) as nat),
                    pow16((k + 1) as nat) == 16 * pow16(k as nat),
            ;
            assert(pow16((k + 1) as nat) <= pow16(8)) by (nonlinear_arith)
                requires
                    pow16((k + 1) as nat) * pow16((8 - k - 1) as nat) == pow16(8),
                    pow16((8 - k - 1) as nat) >= 1,
            ;
        }
        acc = acc * 16 + d;
        k = k + 1;
    }
    proof {
        assert(s@.subrange(0, s@.len() as int) =~= s@);
    }
    Some(acc)
}

/// Sixteen to any power is positive.
proof fn lemma_pow16_positive(n: nat)
    ensures
        pow16(n) >= 1,
    decreases n,
{
    if n > 0 {
        lemma_pow16_positive((n - 1) as nat);
    }
}

/// A string of the characters `chars`.
fn string_of(chars: &Vec<char>) -> (r: String)
    ensures
        r@ == chars@,
{
    let mut s = String::new();
    let mut i: usize = 0;
    while i < chars.len()
        invariant
            i <= chars@.len(),
            s@ == chars@.subrange(0, i as int),
        decreases chars@.len() - i,
    {
        push_char(&mut s, chars[i]);
        proof {
            assert(s@ =~= chars@.subrange(0, i + 1));
        }
        i = i + 1;
    }
    proof {
        assert(chars@.subrange(0, chars@.len() as int) =~= chars@);
    }
    s
}

/// The record that `line` states, if it is one.
pub fn parse_record_line(line: &Vec<char>) -> (r: Option<EventRecord>)
    ensures
        match parse_record(line@) {
            Some(v) => r matches Some(e) && record_view(e) == v,
            None => r is None,
        },
{
    let fields = split_chars(line, ',');
    let ghost views = fields@.map_values(|v: Vec<char>| v@);
    proof {
        assert(views.len() == fields@.len());
    }
    if fields.len() != 3 {
        return None;
    }
    proof {
        assert(views[0] == fields@[0]@ && views[1] == fields@[1]@ && views[2] == fields@[2]@);
    }
    let id = match parse_hex(&fields[1]) {
        Some(id) => id,
        None => {
            return None;
        },
    };
    let hash = fields[2].len() == 1 && fields[2][0] == '1';
    proof {
        if hash {
            assert(fields@[2]@ =~= seq!['1']);
        }
        if fields@[2]@ == seq!['1'] {
            assert(fields@[2]@[0] == '1');
        }
    }
    let index = string_of(&fields[0]);
    Some(EventRecord { index, id, hash })
}

/// The characters of `s`.
fn chars_of(s: &str) -> (r: Vec<char>)
    ensures
        r@ == s@,
{
    let n = s.unicode_len();
    let mut out: Vec<char> = Vec::new();
    let mut i: usize = 0;
    while i < n
        invariant
            n == s@.len(),
            i <= n,
            out@ == s@.subrange(0, i as int),
        decreases n - i,
    {
        out.push(s.get_char(i));
        proof {
            assert(out@ =~= s@.subrange(0, i + 1));
        }
        i = i + 1;
    }
    proof {
        assert(s@.subrange(0, n as int) =~= s@);
    }
    out
}

/// Parses the event table: one record per non-empty line, or an error where
/// a line is no record.
pub fn parse_events(events: &str) -> (r: Result<Vec<EventRecord>, DeobfuscateError>)
    ensures
        match parse_lines(split(events@, '\n')) {
            Some(records) => r matches Ok(v) && v@.map_values(|e: EventRecord| record_view(e)) == records,
            None => r == Err::<Vec<EventRecord>, DeobfuscateError>(DeobfuscateError::MalformedEvent),
        },
{
    let chars = chars_of(events);
    let lines = split_chars(&chars, '\n');
    let ghost views = lines@.map_values(|v: Vec<char>| v@);
    let mut records: Vec<EventRecord> = Vec::new();
    let mut i: usize = 0;
    proof {
        assert(views.subrange(0, 0) =~= Seq::<Seq<char>>::empty());
        assert(records@.map_values(|e: EventRecord| record_view(e)) =~= Seq::empty());
    }
    while i < lines.len()
        invariant
            views == lines@.map_values(|v: Vec<char>| v@),
            views == split(events@, '\n'),
            i <= lines@.len(),
            parse_lines(views.subrange(0, i as int)) == Some(records@.map_values(|e: EventRecord| record_view(e))),
        decreases lines@.len() - i,
    {
        proof {
            assert(views.subrange(0, i + 1).drop_last() =~= views.subrange(0, i as int));
            assert(views.subrange(0, i + 1).last() == lines@[i as int]@);
        }
        let line = &lines[i];
        if line.len() > 0 {
            match parse_record_line(line) {
                Some(record) => {
                    let ghost before = records@;
                    records.push(record);
                    proof {
                        assert(records@.map_values(|e: EventRecord| record_view(e)) =~= before.map_values(
                            |e: EventRecord| record_view(e),
                        ).push(record_view(record)));
                    }
                },
                None => {
                    proof {
                        assert(parse_record(line@) is None);
                        assert(parse_lines(views.subrange(0, i + 1)) is None);
                        lemma_parse_lines_fails(views, i as int);
                    }
                    return Err(DeobfuscateError::MalformedEvent);
                },
            }
        }
        i = i + 1;
    }
    proof {
        assert(views.subrange(0, views.len() as int) =~= views);
    }
    Ok(records)
}

/// Once a prefix of the lines fails to parse, so do all the lines.
proof fn lemma_parse_lines_fails(lines: Seq<Seq<char>>, i: int)
    requires
        0 <= i < lines.len(),
        parse_lines(lines.subrange(0, i + 1)) is None,
    ensures
        parse_lines(lines) is None,
    decreases lines.len() - i,
{
    if i + 1 < lines.len() {
        assert(lines.subrange(0, i + 2).drop_last() =~= lines.subrange(0, i + 1));
        lemma_parse_lines_fails(lines, i + 1);
    } else {
        assert(lines.subrange(0, i + 1) =~= lines);
    }
}

} // verus!
