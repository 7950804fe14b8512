//! Handshake parsing: extract the first peer's handshake timestamp from the
//! raw status text of the tunnel tool.
//!
//! The text holds one line per peer, `<opaque-id><TAB><seconds>`; only the
//! first line is ever consulted. The timestamp is the second field of that
//! line, trimmed of surrounding whitespace and read as a base-10 unsigned
//! integer (an optional leading `+` is accepted, as the standard integer
//! parser does). Empty input, a first line without a tab, or a non-numeric
//! second field all yield "absent" — a normal outcome, not an error.

use vstd::prelude::*;

verus! {

/// Whitespace as trimming understands it: the Unicode `White_Space` set.
pub open spec fn is_space(c: char) -> bool {
    let v = c as u32;
    v == 32 || (9 <= v && v <= 13) || v == 0x85 || v == 0xa0 || v == 0x1680 || (0x2000 <= v && v
        <= 0x200a) || v == 0x2028 || v == 0x2029 || v == 0x202f || v == 0x205f || v == 0x3000
}

/// An ASCII decimal digit.
pub open spec fn is_digit(c: char) -> bool {
    48 <= c as u32 && c as u32 <= 57
}

/// The numeric value of a digit character.
pub open spec fn digit_val(c: char) -> int {
    c as u32 - 48
}

/// Every character of `s` is a decimal digit.
pub open spec fn all_digits(s: Seq<char>) -> bool {
    forall|i: int| 0 <= i < s.len() ==> is_digit(s[i])
}

/// The value of a digit string, most significant digit first.
pub open spec fn digits_val(s: Seq<char>) -> int
    decreases s.len(),
{
    if s.len() == 0 {
        0
    } else {
        digits_val(s.drop_last()) * 10 + digit_val(s.last())
    }
}

/// `s` without its leading whitespace.
pub open spec fn spec_trim_start(s: Seq<char>) -> Seq<char>
    decreases s.len(),
{
    if s.len() > 0 && is_space(s[0]) {
        spec_trim_start(s.drop_first())
    } else {
        s
    }
}

/// `s` without its trailing whitespace.
pub open spec fn spec_trim_end(s: Seq<char>) -> Seq<char>
    decreases s.len(),
{
    if s.len() > 0 && is_space(s.last()) {
        spec_trim_end(s.drop_last())
    } else {
        s
    }
}

/// `s` without surrounding whitespace.
pub open spec fn spec_trim(s: Seq<char>) -> Seq<char> {
    spec_trim_end(spec_trim_start(s))
}

/// The first line of `s`: everything before the first newline, or all of
/// `s` when it has none.
pub open spec fn spec_first_line(s: Seq<char>) -> Seq<char> {
    match s.index_of_first('\n') {
        Some(i) => s.take(i),
        None => s,
    }
}

/// What follows the first tab of `line`, or nothing when it has no tab.
pub open spec fn spec_second_field(line: Seq<char>) -> Option<Seq<char>> {
    match line.index_of_first('\t') {
        Some(i) => Some(line.skip(i + 1)),
        None => None,
    }
}

/// A base-10 unsigned reading of `s`: an optional leading `+`, then one or
/// more digits whose value fits in `u64`; anything else is `None`.
pub open spec fn spec_parse_u64(s: Seq<char>) -> Option<u64> {
    let body = if s.len() > 0 && s[0] == '+' {
        s.drop_first()
    } else {
        s
    };
    if body.len() > 0 && all_digits(body) && digits_val(body) <= u64::MAX {
        Some(digits_val(body) as u64)
    } else {
        None
    }
}

/// The timestamp the status text reports for its first peer: the second
/// tab-separated field of the first line, trimmed and read as a number.
pub open spec fn spec_first_peer_handshake_ts(s: Seq<char>) -> Option<u64> {
    match spec_second_field(spec_first_line(s)) {
        Some(f) => spec_parse_u64(spec_trim(f)),
        None => None,
    }
}

/// `index_of_first` is pinned down by a scan: if nothing before `k`
/// matches, the first occurrence is at `k` (or there is none when the scan
/// ran off the end).
proof fn lemma_index_of_first_at(s: Seq<char>, c: char, k: int)
    requires
        0 <= k <= s.len(),
        forall|i: int| 0 <= i < k ==> s[i] != c,
        k < s.len() ==> s[k] == c,
    ensures
        k < s.len() ==> s.index_of_first(c) == Some(k),
        k == s.len() ==> s.index_of_first(c) is None,
{
    s.index_of_first_ensures(c);
    if k < s.len() {
        assert(s.contains(c));
        match s.index_of_first(c) {
            Some(j) => {
                if j < k {
                    assert(s[j] != c);
                } else if j > k {
                    assert(s[k] != c);
                }
            },
            None => {
                assert(false);
            },
        }
    } else {
        if s.contains(c) {
            let i = choose|i: int| 0 <= i < s.len() && s[i] == c;
            assert(s[i] != c);
        }
    }
}

/// The value of a digit string is at least the value of any of its
/// prefixes.
proof fn lemma_digits_val_nonneg(s: Seq<char>)
    requires
        all_digits(s),
    ensures
        digits_val(s) >= 0,
    decreases s.len(),
{
    if s.len() > 0 {
        assert(all_digits(s.drop_last()));
        lemma_digits_val_nonneg(s.drop_last());
        assert(is_digit(s.last()));
    }
}

proof fn lemma_digits_val_prefix(s: Seq<char>, k: int)
    requires
        all_digits(s),
        0 <= k <= s.len(),
    ensures
        digits_val(s) >= digits_val(s.take(k)),
    decreases s.len(),
{
    if k == s.len() {
        assert(s.take(k) =~= s);
    } else {
        let dl = s.drop_last();
        assert(all_digits(dl));
        lemma_digits_val_prefix(dl, k);
        lemma_digits_val_nonneg(dl);
        assert(is_digit(s.last()));
        assert(dl.take(k) =~= s.take(k));
        assert(digits_val(s) == digits_val(dl) * 10 + digit_val(s.last()));
        assert(digits_val(dl) * 10 >= digits_val(dl)) by {
            lemma_digits_val_nonneg(dl);
        }
    }
}

/// Whether `c` is whitespace in the sense of [`is_space`].
fn is_space_char(c: char) -> (b: bool)
    ensures
        b == is_space(c),
{
    let v = c as u32;
    v == 32 || (9 <= v && v <= 13) || v == 0x85 || v == 0xa0 || v == 0x1680 || (0x2000 <= v && v
        <= 0x200a) || v == 0x2028 || v == 0x2029 || v == 0x202f || v == 0x205f || v == 0x3000
}

/// Parse the first peer's latest-handshake timestamp from status text.
///
/// Returns `None` when no timestamp can be read: empty input, no tab on
/// the first line, or a second field that is not a plain base-10 unsigned
/// integer once trimmed.
pub fn first_peer_handshake_ts(output: &str) -> (r: Option<u64>)
    ensures
        r == spec_first_peer_handshake_ts(output@),
{
    let ghost s = output@;
    let n = output.unicode_len();

    // End of the first line: the index of the first newline, or the length.
    let mut line_end: usize = 0;
    while line_end < n && output.get_char(line_end) != '\n'
        invariant
            0 <= line_end <= n,
            n == s.len(),
            s == output@,
            forall|j: int| 0 <= j < line_end ==> s[j] != '\n',
        decreases n - line_end,
    {
        line_end += 1;
    }
    proof {
        lemma_index_of_first_at(s, '\n', line_end as int);
        assert(s.take(line_end as int) =~= s.subrange(0, line_end as int));
        if line_end == n {
            assert(s.take(line_end as int) =~= s);
        }
    }
    let ghost line = s.subrange(0, line_end as int);
    assert(spec_first_line(s) == line);

    // The first tab within the first line.
    let mut t: usize = 0;
    while t < line_end && output.get_char(t) != '\t'
        invariant
            0 <= t <= line_end <= n,
            n == s.len(),
            s == output@,
            forall|j: int| 0 <= j < t ==> s[j] != '\t',
        decreases line_end - t,
    {
        t += 1;
    }
    proof {
        assert(forall|j: int| 0 <= j < line.len() ==> line[j] == s[j]);
        lemma_index_of_first_at(line, '\t', t as int);
    }
    if t == line_end {
        assert(spec_second_field(line) is None);
        return None;
    }
    let ghost field = line.skip(t as int + 1);
    proof {
        assert(field =~= s.subrange(t as int + 1, line_end as int));
    }

    // Trim leading whitespace of the field.
    let mut lo: usize = t + 1;
    let mut hi: usize = line_end;
    while lo < hi && is_space_char(output.get_char(lo))
        invariant
            t + 1 <= lo <= hi <= n,
            hi == line_end,
            n == s.len(),
            s == output@,
            field == s.subrange(t as int + 1, line_end as int),
            spec_trim_start(field) == spec_trim_start(s.subrange(lo as int, hi as int)),
        decreases hi - lo,
    {
        proof {
            let cur = s.subrange(lo as int, hi as int);
            assert(cur[0] == s[lo as int]);
            assert(cur.drop_first() =~= s.subrange(lo as int + 1, hi as int));
        }
        lo += 1;
    }
    proof {
        let cur = s.subrange(lo as int, hi as int);
        if lo < hi {
            assert(cur[0] == s[lo as int]);
        }
        assert(spec_trim_start(cur) == cur);
    }

    // Trim trailing whitespace of the field.
    while hi > lo && is_space_char(output.get_char(hi - 1))
        invariant
            t + 1 <= lo <= hi <= line_end <= n,
            n == s.len(),
            s == output@,
            field == s.subrange(t as int + 1, line_end as int),
            spec_trim(field) == spec_trim_end(s.subrange(lo as int, hi as int)),
        decreases hi - lo,
    {
        proof {
            let cur = s.subrange(lo as int, hi as int);
            assert(cur.last() == s[hi as int - 1]);
            assert(cur.drop_last() =~= s.subrange(lo as int, hi as int - 1));
        }
        hi -= 1;
    }
    let ghost trimmed = s.subrange(lo as int, hi as int);
    proof {
        if hi > lo {
            assert(trimmed.last() == s[hi as int - 1]);
        }
        assert(spec_trim_end(trimmed) == trimmed);
        assert(spec_trim(field) == trimmed);
    }

    // Read the trimmed field as a base-10 unsigned integer.
    if lo == hi {
        assert(spec_parse_u64(trimmed) is None);
        return None;
    }
    let mut start = lo;
    if output.get_char(lo) == '+' {
        start = lo + 1;
    }
    let ghost body = s.subrange(start as int, hi as int);
    proof {
        assert(trimmed[0] == s[lo as int]);
        if s[lo as int] == '+' {
            assert(trimmed.drop_first() =~= body);
        } else {
            assert(trimmed =~= body);
        }
    }
    if start == hi {
        assert(body.len() == 0);
        assert(spec_parse_u64(trimmed) is None);
        return None;
    }

    let mut val: u64 = 0;
    let mut j = start;
    while j < hi
        invariant
            lo <= start <= j <= hi <= n,
            lo < hi,
            start < hi,
            start == lo || start == lo + 1,
            n == s.len(),
            s == output@,
            spec_second_field(spec_first_line(s)) == Some(field),
            spec_trim(field) == trimmed,
            trimmed == s.subrange(lo as int, hi as int),
            start == lo + 1 <==> s[lo as int] == '+',
            body == s.subrange(start as int, hi as int),
            forall|k: int| start <= k < j ==> is_digit(s[k]),
            val == digits_val(s.subrange(start as int, j as int)),
        decreases hi - j,
    {
        proof {
            assert(trimmed[0] == s[lo as int]);
            if s[lo as int] == '+' {
                assert(trimmed.drop_first() =~= body);
            } else {
                assert(trimmed =~= body);
            }
        }
        let c = output.get_char(j);
        let cv = c as u32;
        if cv < 48 || cv > 57 {
            proof {
                assert(body[j as int - start as int] == s[j as int]);
                assert(!all_digits(body));
            }
            assert(spec_parse_u64(trimmed) is None);
            return None;
        }
        let d = (cv - 48) as u64;
        let ghost pre = s.subrange(start as int, j as int);
        let ghost ext = s.subrange(start as int, j as int + 1);
        proof {
            assert(ext.drop_last() =~= pre);
            assert(ext.last() == s[j as int]);
            assert(digits_val(ext) == val * 10 + d);
        }
        let m = match val.checked_mul(10) {
            Some(m) => m,
            None => {
                proof {
                    assert(body.take(j as int + 1 - start as int) =~= ext);
                    lemma_overflow_no_parse(body, j as int - start as int);
                }
                assert(spec_parse_u64(trimmed) is None);
                return None;
            },
        };
        let nv = match m.checked_add(d) {
            Some(nv) => nv,
            None => {
                proof {
                    assert(body.take(j as int + 1 - start as int) =~= ext);
                    lemma_overflow_no_parse(body, j as int - start as int);
                }
                assert(spec_parse_u64(trimmed) is None);
                return None;
            },
        };
        val = nv;
        j += 1;
    }
    proof {
        assert(s.subrange(start as int, j as int) =~= body);
        assert(all_digits(body));
        lemma_digits_val_nonneg(body);
    }
    assert(spec_parse_u64(trimmed) == Some(val));
    Some(val)
}

/// When the first line of the input holds no tab character, the parser
/// reports the timestamp as absent, whatever else the input holds.
pub proof fn lemma_no_tab_means_absent(s: Seq<char>)
    requires
        !spec_first_line(s).contains('\t'),
    ensures
        spec_first_peer_handshake_ts(s) is None,
{
    spec_first_line(s).index_of_first_ensures('\t');
}

/// Leading whitespace falls to trimming: whatever whitespace stands in
/// front, the trim of the whole is the trim of the rest.
proof fn lemma_trim_start_spaces(pad: Seq<char>, x: Seq<char>)
    requires
        forall|i: int| 0 <= i < pad.len() ==> is_space(pad[i]),
    ensures
        spec_trim_start(pad + x) == spec_trim_start(x),
    decreases pad.len(),
{
    if pad.len() == 0 {
        assert(pad + x =~= x);
    } else {
        assert((pad + x)[0] == pad[0]);
        assert((pad + x).drop_first() =~= pad.drop_first() + x);
        lemma_trim_start_spaces(pad.drop_first(), x);
    }
}

/// Trailing whitespace falls to trimming likewise.
proof fn lemma_trim_end_spaces(x: Seq<char>, pad: Seq<char>)
    requires
        forall|i: int| 0 <= i < pad.len() ==> is_space(pad[i]),
    ensures
        spec_trim_end(x + pad) == spec_trim_end(x),
    decreases pad.len(),
{
    if pad.len() == 0 {
        assert(x + pad =~= x);
    } else {
        assert((x + pad).last() == pad.last());
        assert((x + pad).drop_last() =~= x + pad.drop_last());
        lemma_trim_end_spaces(x, pad.drop_last());
    }
}

/// Trimming whitespace from around a core that neither starts nor ends
/// with whitespace yields exactly the core.
proof fn lemma_trim_padded(pad1: Seq<char>, core: Seq<char>, pad2: Seq<char>)
    requires
        forall|i: int| 0 <= i < pad1.len() ==> is_space(pad1[i]),
        forall|i: int| 0 <= i < pad2.len() ==> is_space(pad2[i]),
        core.len() > 0,
        !is_space(core[0]),
        !is_space(core.last()),
    ensures
        spec_trim(pad1 + core + pad2) == core,
{
    assert(pad1 + core + pad2 =~= pad1 + (core + pad2));
    lemma_trim_start_spaces(pad1, core + pad2);
    assert((core + pad2)[0] == core[0]);
    assert(spec_trim_start(core + pad2) == core + pad2);
    lemma_trim_end_spaces(core, pad2);
    assert(spec_trim_end(core) == core);
}

/// A well-formed first line parses to exactly its number: for any input
/// whose first line is an identifier, a tab, and a digit string (possibly
/// surrounded by whitespace), the parser returns the digit string's
/// value, and lines beyond the first are ignored entirely.
pub proof fn lemma_well_formed_line_parses(
    id: Seq<char>,
    pad1: Seq<char>,
    digits: Seq<char>,
    pad2: Seq<char>,
    rest: Seq<char>,
)
    requires
        !id.contains('\t'),
        !id.contains('\n'),
        forall|i: int| 0 <= i < pad1.len() ==> is_space(#[trigger] pad1[i]) && pad1[i] != '\n',
        forall|i: int| 0 <= i < pad2.len() ==> is_space(#[trigger] pad2[i]) && pad2[i] != '\n',
        digits.len() > 0,
        all_digits(digits),
        digits_val(digits) <= u64::MAX,
        rest.len() == 0 || rest[0] == '\n',
    ensures
        spec_first_peer_handshake_ts(id + seq!['\t'] + pad1 + digits + pad2 + rest) == Some(
            digits_val(digits) as u64,
        ),
{
    let line = id + seq!['\t'] + pad1 + digits + pad2;
    let s = id + seq!['\t'] + pad1 + digits + pad2 + rest;
    assert(s =~= line + rest);
    let ll = line.len() as int;

    // The first newline, if any, opens `rest`: the first line is `line`.
    assert forall|i: int| 0 <= i < ll implies line[i] != '\n' by {
        if i < id.len() {
            assert(line[i] == id[i]);
            assert(id.contains(line[i]) || line[i] != '\n');
        } else if i == id.len() {
            assert(line[i] == '\t');
        } else if i < id.len() + 1 + pad1.len() {
            assert(line[i] == pad1[i - id.len() - 1]);
        } else if i < id.len() + 1 + pad1.len() + digits.len() {
            assert(line[i] == digits[i - id.len() - 1 - pad1.len()]);
            assert(is_digit(line[i]));
        } else {
            assert(line[i] == pad2[i - id.len() - 1 - pad1.len() - digits.len()]);
        }
    }
    assert(forall|i: int| 0 <= i < ll ==> s[i] == line[i]);
    if rest.len() > 0 {
        assert(s[ll] == rest[0]);
    }
    lemma_index_of_first_at(s, '\n', ll);
    assert(spec_first_line(s) =~= line);

    // The first tab of the line is the separator after `id`.
    assert forall|i: int| 0 <= i < id.len() implies line[i] != '\t' by {
        assert(line[i] == id[i]);
        assert(id.contains(line[i]) || line[i] != '\t');
    }
    assert(line[id.len() as int] == '\t');
    lemma_index_of_first_at(line, '\t', id.len() as int);

    // The field is the padded digit string; trimming bares the digits.
    let field = line.skip(id.len() as int + 1);
    assert(field =~= pad1 + digits + pad2);
    assert(is_digit(digits[0]) && is_digit(digits.last()));
    lemma_trim_padded(pad1, digits, pad2);
    assert(spec_trim(field) == digits);

    // A digit string parses to its value.
    assert(digits[0] != '+');
    lemma_digits_val_nonneg(digits);
    assert(spec_parse_u64(digits) == Some(digits_val(digits) as u64));
}

/// When some prefix of a digit string already exceeds `u64::MAX`, the
/// whole string has no `u64` reading, whatever its remaining characters.
proof fn lemma_overflow_no_parse(body: Seq<char>, k: int)
    requires
        0 <= k < body.len(),
        digits_val(body.take(k + 1)) > u64::MAX,
    ensures
        !(all_digits(body) && digits_val(body) <= u64::MAX),
{
    if all_digits(body) {
        lemma_digits_val_prefix(body, k + 1);
    }
}

} // verus!
