//! What the process table tells of a window's process: its command line and
//! the user it runs as, read from `/proc/<pid>/cmdline` and
//! `/proc/<pid>/status` by the application and parsed here.
use vstd::prelude::*;

verus! {

/// What separates the pieces of a text.
#[derive(Clone, Copy, Debug, PartialEq, Eq, Structural)]
pub enum Separator {
    /// The NUL character, between command-line arguments.
    Nul,
    /// A line feed, between lines.
    Newline,
    /// Any Unicode white space, between words.
    Whitespace,
}

/// A character with the Unicode `White_Space` property.
pub open spec fn is_unicode_whitespace(c: char) -> bool {
    ||| ('\u{9}' <= c && c <= '\u{d}')
    ||| c == ' '
    ||| c == '\u{85}'
    ||| c == '\u{a0}'
    ||| c == '\u{1680}'
    ||| ('\u{2000}' <= c && c <= '\u{200a}')
    ||| c == '\u{2028}'
    ||| c == '\u{2029}'
    ||| c == '\u{202f}'
    ||| c == '\u{205f}'
    ||| c == '\u{3000}'
}

/// `c` separates pieces of the given kind.
pub open spec fn separates(kind: Separator, c: char) -> bool {
    match kind {
        Separator::Nul => c == '\0',
        Separator::Newline => c == '\n',
        Separator::Whitespace => is_unicode_whitespace(c),
    }
}

/// The piece `p` as a list: kept when empty pieces are kept or it is not empty.
pub open spec fn emit(p: Seq<char>, keep_empty: bool) -> Seq<Seq<char>> {
    if keep_empty || p.len() > 0 {
        seq![p]
    } else {
        Seq::empty()
    }
}

/// The pieces of `s` from the one that starts at `start`, given that
/// `s[start..i]` holds no separator.
pub open spec fn pieces_from(s: Seq<char>, kind: Separator, keep_empty: bool, start: int, i: int) -> Seq<Seq<char>>
    decreases s.len() - i,
{
    if i >= s.len() {
        emit(s.subrange(start, s.len() as int), keep_empty)
    } else if separates(kind, s[i]) {
        emit(s.subrange(start, i), keep_empty) + pieces_from(s, kind, keep_empty, i + 1, i + 1)
    } else {
        pieces_from(s, kind, keep_empty, start, i + 1)
    }
}

/// The pieces of `s` between separators of `kind`, in order; empty pieces are
/// left out unless `keep_empty`.
pub open spec fn pieces(s: Seq<char>, kind: Separator, keep_empty: bool) -> Seq<Seq<char>> {
    pieces_from(s, kind, keep_empty, 0, 0)
}

fn is_separator(kind: Separator, c: char) -> (r: bool)
    ensures
        r == separates(kind, c),
{
    match kind {
        Separator::Nul => c == '\0',
        Separator::Newline => c == '\n',
        Separator::Whitespace => {
            ('\u{9}' <= c && c <= '\u{d}') || c == ' ' || c == '\u{85}' || c == '\u{a0}' || c
                == '\u{1680}' || ('\u{2000}' <= c && c <= '\u{200a}') || c == '\u{2028}' || c
                == '\u{2029}' || c == '\u{202f}' || c == '\u{205f}' || c == '\u{3000}'
        },
    }
}

/// Splits `s` into its pieces between separators of `kind` (see `pieces`).
pub fn split_pieces(s: &str, kind: Separator, keep_empty: bool) -> (r: Vec<String>)
    ensures
        r@.map_values(|p: String| p@) == pieces(s@, kind, keep_empty),
{
    let n = s.unicode_len();
    let mut acc: Vec<String> = Vec::new();
    let mut start: usize = 0;
    let mut i: usize = 0;
    while i < n
        invariant
            n == s@.len(),
            start <= i <= n,
            acc@.map_values(|p: String| p@) + pieces_from(s@, kind, keep_empty, start as int, i as int)
                == pieces(s@, kind, keep_empty),
        decreases n - i,
    {
        let c = s.get_char(i);
        if is_separator(kind, c) {
            let ghost before = acc@;
            if keep_empty || start < i {
                acc.push(s.substring_char(start, i).to_owned());
            }
            proof {
                let piece = s@.subrange(start as int, i as int);
                let rest = pieces_from(s@, kind, keep_empty, i + 1, i + 1);
                assert(acc@.map_values(|p: String| p@) =~= before.map_values(|p: String| p@) + emit(piece, keep_empty));
                assert(before.map_values(|p: String| p@) + (emit(piece, keep_empty) + rest)
                    =~= (before.map_values(|p: String| p@) + emit(piece, keep_empty)) + rest);
            }
            start = i + 1;
        }
        i = i + 1;
    }
    let ghost before = acc@;
    if keep_empty || start < n {
        acc.push(s.substring_char(start, n).to_owned());
    }
    proof {
        let piece = s@.subrange(start as int, n as int);
        assert(acc@.map_values(|p: String| p@) =~= before.map_values(|p: String| p@) + emit(piece, keep_empty));
    }
    acc
}

/// The arguments of a command line as `/proc/<pid>/cmdline` holds it: the
/// pieces between NUL characters, empty ones left out.
pub fn split_cmdline(cmdline: &str) -> (r: Vec<String>)
    ensures
        r@.map_values(|p: String| p@) == pieces(cmdline@, Separator::Nul, false),
{
    split_pieces(cmdline, Separator::Nul, false)
}

/// The value of a string of decimal digits.
pub open spec fn digits_value(d: Seq<char>) -> nat
    decreases d.len(),
{
    if d.len() == 0 {
        0
    } else {
        (digits_value(d.drop_last()) * 10 + (d.last() as int - '0' as int)) as nat
    }
}

/// Every character is an ASCII digit.
pub open spec fn all_digits(d: Seq<char>) -> bool {
    forall|i: int| 0 <= i < d.len() ==> '0' <= #[trigger] d[i] && d[i] <= '9'
}

/// What parsing `t` as a `u32` gives: an optional `+`, then one or more
/// decimal digits whose value fits in 32 bits.
pub open spec fn parsed_u32(t: Seq<char>) -> Option<u32> {
    let d = if t.len() > 0 && t[0] == '+' { t.drop_first() } else { t };
    if d.len() > 0 && all_digits(d) && digits_value(d) <= u32::MAX {
        Some(digits_value(d) as u32)
    } else {
        None
    }
}

proof fn lemma_digits_value_grows(d: Seq<char>, k: int)
    requires
        all_digits(d),
        0 <= k <= d.len(),
    ensures
        digits_value(d.take(k)) <= digits_value(d),
    decreases d.len() - k,
{
    if k < d.len() {
        lemma_digits_value_grows(d, k + 1);
        assert(d.take(k + 1).drop_last() =~= d.take(k));
    } else {
        assert(d.take(k) =~= d);
    }
}

/// Parses `t` as a `u32` (see `parsed_u32`).
pub fn parse_u32(t: &str) -> (r: Option<u32>)
    ensures
        r == parsed_u32(t@),
{
    let n = t.unicode_len();
    let mut i: usize = 0;
    if n > 0 && t.get_char(0) == '+' {
        i = 1;
    }
    let first = i;
    let ghost d = if t@.len() > 0 && t@[0] == '+' { t@.drop_first() } else { t@ };
    if first == n {
        return None;
    }
    let mut value: u64 = 0;
    while i < n
        invariant
            n == t@.len(),
            first <= i <= n,
            first < n,
            d == t@.subrange(first as int, n as int),
            d == (if t@.len() > 0 && t@[0] == '+' { t@.drop_first() } else { t@ }),
            all_digits(d.take(i - first)),
            value == digits_value(d.take(i - first)),
            value <= u32::MAX,
        decreases n - i,
    {
        let c = t.get_char(i);
        if !('0' <= c && c <= '9') {
            proof {
                assert(d[i - first] == c);
                assert(!all_digits(d));
                assert(parsed_u32(t@) is None);
            }
            return None;
        }
        let digit = (c as u32 - '0' as u32) as u64;
        proof {
            assert(d.take(i - first + 1).drop_last() =~= d.take(i - first));
            assert(d.take(i - first + 1).last() == c);
        }
        value = value * 10 + digit;
        proof {
            assert(value == digits_value(d.take(i - first + 1)));
        }
        if value > 0xffff_ffff {
            proof {
                if all_digits(d) {
                    lemma_digits_value_grows(d, i - first + 1);
                    assert(digits_value(d) > u32::MAX);
                }
                assert(parsed_u32(t@) is None);
            }
            return None;
        }
        i = i + 1;
    }
    proof {
        assert(d.take(n - first) =~= d);
    }
    Some(value as u32)
}

/// The first of `lines` that starts with `Uid:`, if any.
pub open spec fn first_uid_line(lines: Seq<Seq<char>>) -> Option<Seq<char>>
    decreases lines.len(),
{
    if lines.len() == 0 {
        None
    } else if lines[0].len() >= 4 && lines[0].take(4) == seq!['U', 'i', 'd', ':'] {
        Some(lines[0])
    } else {
        first_uid_line(lines.drop_first())
    }
}

/// The real user id that `/proc/<pid>/status` gives: the second word of its
/// first line that starts with `Uid:`, read as a `u32`.
pub open spec fn status_uid_spec(status: Seq<char>) -> Option<u32> {
    match first_uid_line(pieces(status, Separator::Newline, true)) {
        None => None,
        Some(line) => {
            let words = pieces(line, Separator::Whitespace, false);
            if words.len() >= 2 {
                parsed_u32(words[1])
            } else {
                None
            }
        },
    }
}

/// The real user id in the text of `/proc/<pid>/status` (see
/// `status_uid_spec`).
pub fn status_uid(status: &str) -> (r: Option<u32>)
    ensures
        r == status_uid_spec(status@),
{
    let lines = split_pieces(status, Separator::Newline, true);
    let ghost views = lines@.map_values(|p: String| p@);
    let mut i: usize = 0;
    proof {
        assert(views.skip(0) =~= views);
    }
    while i < lines.len()
        invariant
            i <= lines@.len(),
            views == lines@.map_values(|p: String| p@),
            views == pieces(status@, Separator::Newline, true),
            first_uid_line(views) == first_uid_line(views.skip(i as int)),
        decreases lines@.len() - i,
    {
        proof {
            assert(views.skip(i as int).drop_first() =~= views.skip(i + 1int));
            assert(views.skip(i as int)[0] == lines@[i as int]@);
        }
        let line = lines[i].as_str();
        let len = line.unicode_len();
        let starts = len >= 4 && line.get_char(0) == 'U' && line.get_char(1) == 'i'
            && line.get_char(2) == 'd' && line.get_char(3) == ':';
        proof {
            if len >= 4 {
                if starts {
                    assert(line@.take(4) =~= seq!['U', 'i', 'd', ':']);
                } else {
                    assert(line@.take(4)[0] == line@[0]);
                    assert(line@.take(4)[1] == line@[1]);
                    assert(line@.take(4)[2] == line@[2]);
                    assert(line@.take(4)[3] == line@[3]);
                }
            }
        }
        if starts {
            let words = split_pieces(line, Separator::Whitespace, false);
            if words.len() >= 2 {
                return parse_u32(words[1].as_str());
            }
            return None;
        }
        i = i + 1;
    }
    proof {
        assert(views.skip(i as int).len() == 0);
    }
    None
}

} // verus!
