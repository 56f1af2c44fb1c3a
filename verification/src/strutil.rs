//! String helpers the orchestrator needs: lexicographic comparison for the
//! suggestion index, whitespace trimming for secrets read off disk, decimal
//! rendering for timestamps and elapsed-time stamps, and locating the
//! `::` separator of `repository::archive` selectors.
use vstd::prelude::*;

verus! {

/// Strict lexicographic order on character sequences.
pub open spec fn seq_lt(a: Seq<char>, b: Seq<char>) -> bool
    decreases a.len(),
{
    if a.len() == 0 {
        b.len() > 0
    } else if b.len() == 0 {
        false
    } else if a[0] != b[0] {
        a[0] < b[0]
    } else {
        seq_lt(a.skip(1), b.skip(1))
    }
}

/// Lexicographic order, allowing equality.
pub open spec fn seq_le(a: Seq<char>, b: Seq<char>) -> bool {
    seq_lt(a, b) || a == b
}

/// Lexicographic order is total: two sequences always compare one way.
pub proof fn lemma_seq_lt_total(a: Seq<char>, b: Seq<char>)
    ensures
        seq_lt(a, b) || seq_lt(b, a) || a == b,
    decreases a.len(),
{
    if a.len() == 0 {
        if b.len() == 0 {
            assert(a =~= b);
        }
    } else if b.len() == 0 {
    } else if a[0] != b[0] {
    } else {
        lemma_seq_lt_total(a.skip(1), b.skip(1));
        if a.skip(1) == b.skip(1) {
            assert(a.skip(1).len() == a.len() - 1);
            assert(b.skip(1).len() == b.len() - 1);
            assert(a.len() == b.len());
            assert forall|j: int| 0 <= j < a.len() implies a[j] == b[j] by {
                if j > 0 {
                    assert(a.skip(1)[j - 1] == a[j]);
                    assert(b.skip(1)[j - 1] == b[j]);
                    assert(a.skip(1)[j - 1] == b.skip(1)[j - 1]);
                }
            }
            assert(a =~= b);
        }
    }
}

/// Compares two strings lexicographically by characters.
pub fn str_le(a: &str, b: &str) -> (r: bool)
    ensures
        r == seq_le(a@, b@),
{
    let a_len = a.unicode_len();
    let b_len = b.unicode_len();
    let mut i: usize = 0;
    proof {
        assert(a@.skip(0) =~= a@);
        assert(b@.skip(0) =~= b@);
    }
    loop
        invariant
            i <= a_len,
            i <= b_len,
            a_len == a@.len(),
            b_len == b@.len(),
            seq_le(a@, b@) == seq_le(a@.skip(i as int), b@.skip(i as int)),
        decreases a_len - i,
    {
        if i == a_len {
            proof {
                assert(a@.skip(i as int).len() == 0);
                if b@.skip(i as int).len() == 0 {
                    assert(a@.skip(i as int) =~= b@.skip(i as int));
                }
            }
            return true;
        }
        if i == b_len {
            assert(b@.skip(i as int).len() == 0);
            assert(a@.skip(i as int).len() > 0);
            return false;
        }
        let ca = a.get_char(i);
        let cb = b.get_char(i);
        proof {
            assert(a@.skip(i as int)[0] == a@[i as int]);
            assert(b@.skip(i as int)[0] == b@[i as int]);
            assert(a@.skip(i as int).skip(1) =~= a@.skip(i + 1));
            assert(b@.skip(i as int).skip(1) =~= b@.skip(i + 1));
        }
        if ca != cb {
            return ca < cb;
        }
        proof {
            if a@.skip(i as int) == b@.skip(i as int) {
                assert(a@.skip(i + 1) == b@.skip(i + 1));
            }
            if a@.skip(i + 1) == b@.skip(i + 1) {
                assert(a@.skip(i as int).len() == b@.skip(i as int).len());
                assert forall|j: int|
                    0 <= j < a@.skip(i as int).len() implies a@.skip(i as int)[j] == b@.skip(
                    i as int,
                )[j] by {
                    if j == 0 {
                        assert(a@[i as int] == b@[i as int]);
                    } else {
                        assert(a@.skip(i + 1)[j - 1] == b@.skip(i + 1)[j - 1]);
                    }
                }
                assert(a@.skip(i as int) =~= b@.skip(i as int));
            }
        }
        i = i + 1;
    }
}

/// Whether two strings hold the same characters.
pub fn str_eq(a: &str, b: &str) -> (r: bool)
    ensures
        r == (a@ == b@),
{
    a.to_owned() == b.to_owned()
}

/// The whitespace characters this library trims from secrets read off disk.
pub open spec fn is_space(c: char) -> bool {
    c == ' ' || c == '\t' || c == '\n' || c == '\r'
}

/// How many leading whitespace characters `s` has.
pub open spec fn leading_spaces(s: Seq<char>) -> nat
    decreases s.len(),
{
    if s.len() == 0 || !is_space(s[0]) {
        0
    } else {
        1 + leading_spaces(s.skip(1))
    }
}

/// `s` with leading and trailing whitespace removed.
pub open spec fn trim_spec(s: Seq<char>) -> Seq<char> {
    let t = s.skip(leading_spaces(s) as int);
    t.take(t.len() - leading_spaces(t.reverse()))
}

proof fn lemma_leading_spaces_from_facts(s: Seq<char>, k: nat)
    requires
        k <= s.len(),
        forall|i: int| 0 <= i < k ==> is_space(s[i]),
        k < s.len() ==> !is_space(s[k as int]),
    ensures
        leading_spaces(s) == k,
    decreases s.len(),
{
    if s.len() == 0 {
    } else if k == 0 {
    } else {
        assert(is_space(s[0]));
        assert forall|i: int| 0 <= i < k - 1 implies is_space(s.skip(1)[i]) by {
            assert(s.skip(1)[i] == s[i + 1]);
        }
        if k - 1 < s.skip(1).len() {
            assert(s.skip(1)[k - 1] == s[k as int]);
        }
        lemma_leading_spaces_from_facts(s.skip(1), (k - 1) as nat);
    }
}

fn is_space_exec(c: char) -> (r: bool)
    ensures
        r == is_space(c),
{
    c == ' ' || c == '\t' || c == '\n' || c == '\r'
}

/// Removes leading and trailing whitespace, as `trim_spec` describes.
pub fn trim(s: &str) -> (r: String)
    ensures
        r@ == trim_spec(s@),
{
    let len = s.unicode_len();
    let mut start: usize = 0;
    loop
        invariant
            start <= len,
            len == s@.len(),
            forall|i: int| 0 <= i < start ==> is_space(s@[i]),
        ensures
            start <= len,
            forall|i: int| 0 <= i < start ==> is_space(s@[i]),
            start < len ==> !is_space(s@[start as int]),
        decreases len - start,
    {
        if start == len {
            break;
        }
        if !is_space_exec(s.get_char(start)) {
            break;
        }
        start = start + 1;
    }
    let mut end: usize = len;
    loop
        invariant
            start <= end <= len,
            len == s@.len(),
            start < len ==> !is_space(s@[start as int]),
            forall|i: int| end <= i < len ==> is_space(s@[i]),
        ensures
            start <= end <= len,
            forall|i: int| end <= i < len ==> is_space(s@[i]),
            end > start ==> !is_space(s@[end - 1]),
        decreases end,
    {
        if end == start {
            break;
        }
        if !is_space_exec(s.get_char(end - 1)) {
            break;
        }
        end = end - 1;
    }
    let sub = s.substring_char(start, end);
    proof {
        let t = s@.skip(leading_spaces(s@) as int);
        lemma_leading_spaces_from_facts(s@, start as nat);
        assert(t =~= s@.skip(start as int));
        if start == end {
            assert(t.reverse().len() == t.len());
            assert forall|i: int| 0 <= i < t.reverse().len() implies is_space(t.reverse()[i]) by {
                assert(t.reverse()[i] == t[t.len() - 1 - i]);
                assert(t[t.len() - 1 - i] == s@[start + t.len() - 1 - i]);
            }
            lemma_leading_spaces_from_facts(t.reverse(), t.len());
            assert(sub@ =~= trim_spec(s@));
        } else {
            assert(!is_space(s@[end - 1]));
            assert forall|i: int| 0 <= i < len - end implies is_space(t.reverse()[i]) by {
                assert(t.reverse()[i] == t[t.len() - 1 - i]);
                assert(t[t.len() - 1 - i] == s@[start + t.len() - 1 - i]);
                assert(start + t.len() - 1 - i >= end);
            }
            assert(t.reverse()[len - end] == t[t.len() - 1 - (len - end)]);
            assert(t[t.len() - 1 - (len - end)] == s@[end - 1]);
            lemma_leading_spaces_from_facts(t.reverse(), (len - end) as nat);
            assert(sub@ =~= trim_spec(s@));
        }
    }
    sub.to_owned()
}

/// The decimal digit character of `d`, for `d < 10`.
pub open spec fn digit_char(d: nat) -> char {
    if d == 0 {
        '0'
    } else if d == 1 {
        '1'
    } else if d == 2 {
        '2'
    } else if d == 3 {
        '3'
    } else if d == 4 {
        '4'
    } else if d == 5 {
        '5'
    } else if d == 6 {
        '6'
    } else if d == 7 {
        '7'
    } else if d == 8 {
        '8'
    } else {
        '9'
    }
}

/// The decimal rendering of `n`, most significant digit first.
pub open spec fn dec_spec(n: nat) -> Seq<char>
    decreases n,
{
    if n < 10 {
        seq![digit_char(n)]
    } else {
        dec_spec(n / 10) + seq![digit_char(n % 10)]
    }
}

fn digit_str(d: u64) -> (r: &'static str)
    requires
        d < 10,
    ensures
        r@ == seq![digit_char(d as nat)],
{
    proof {
        reveal_strlit("0");
        reveal_strlit("1");
        reveal_strlit("2");
        reveal_strlit("3");
        reveal_strlit("4");
        reveal_strlit("5");
        reveal_strlit("6");
        reveal_strlit("7");
        reveal_strlit("8");
        reveal_strlit("9");
    }
    if d == 0 {
        "0"
    } else if d == 1 {
        "1"
    } else if d == 2 {
        "2"
    } else if d == 3 {
        "3"
    } else if d == 4 {
        "4"
    } else if d == 5 {
        "5"
    } else if d == 6 {
        "6"
    } else if d == 7 {
        "7"
    } else if d == 8 {
        "8"
    } else {
        "9"
    }
}

/// Renders `n` in decimal.
pub fn u64_to_dec(n: u64) -> (r: String)
    ensures
        r@ == dec_spec(n as nat),
    decreases n,
{
    if n < 10 {
        digit_str(n).to_owned()
    } else {
        let mut prefix = u64_to_dec(n / 10);
        prefix.append(digit_str(n % 10));
        prefix
    }
}

/// `n` in decimal, left-padded with zeros to at least `width` characters.
pub open spec fn padded_dec_spec(n: nat, width: nat) -> Seq<char>
    decreases width,
{
    if dec_spec(n).len() >= width {
        dec_spec(n)
    } else {
        seq!['0'] + padded_dec_spec(n, (width - 1) as nat)
    }
}

/// A run of `n` zero characters.
pub open spec fn zeros(n: nat) -> Seq<char>
    decreases n,
{
    if n == 0 {
        Seq::empty()
    } else {
        seq!['0'] + zeros((n - 1) as nat)
    }
}

proof fn lemma_zeros_snoc(n: nat)
    ensures
        zeros(n) + seq!['0'] =~= zeros(n + 1),
    decreases n,
{
    if n == 0 {
    } else {
        lemma_zeros_snoc((n - 1) as nat);
        assert(zeros(n) + seq!['0'] =~= seq!['0'] + (zeros((n - 1) as nat) + seq!['0']));
    }
}

proof fn lemma_dec_len_upper(n: nat)
    ensures
        n < 10 ==> dec_spec(n).len() == 1,
        n < 100 ==> dec_spec(n).len() <= 2,
        n < 1000 ==> dec_spec(n).len() <= 3,
        n < 10000 ==> dec_spec(n).len() <= 4,
    decreases n,
{
    if n >= 10 {
        lemma_dec_len_upper(n / 10);
    }
}

proof fn lemma_dec_len_lower(n: nat)
    ensures
        dec_spec(n).len() >= 1,
        n >= 10 ==> dec_spec(n).len() >= 2,
        n >= 100 ==> dec_spec(n).len() >= 3,
        n >= 1000 ==> dec_spec(n).len() >= 4,
    decreases n,
{
    if n >= 10 {
        lemma_dec_len_lower(n / 10);
    }
}

proof fn lemma_pad_concat(n: nat, width: nat, need: nat)
    requires
        dec_spec(n).len() + need == width || (dec_spec(n).len() >= width && need == 0),
    ensures
        padded_dec_spec(n, width) == zeros(need) + dec_spec(n),
    decreases width,
{
    if dec_spec(n).len() >= width {
        assert(zeros(0) + dec_spec(n) =~= dec_spec(n));
    } else {
        lemma_pad_concat(n, (width - 1) as nat, (need - 1) as nat);
        assert(seq!['0'] + (zeros((need - 1) as nat) + dec_spec(n)) =~= zeros(need) + dec_spec(n));
    }
}

/// Renders `n` in decimal with zero padding to `width` (2 or 4).
pub fn padded_dec(n: u64, width: u64) -> (r: String)
    requires
        width == 2 || width == 4,
    ensures
        r@ == padded_dec_spec(n as nat, width as nat),
{
    proof {
        reveal_strlit("0");
        lemma_dec_len_upper(n as nat);
        lemma_dec_len_lower(n as nat);
    }
    let digits = u64_to_dec(n);
    let mut need: u64 = 0;
    if width == 2 {
        if n < 10 {
            need = 1;
        }
    } else {
        if n < 10 {
            need = 3;
        } else if n < 100 {
            need = 2;
        } else if n < 1000 {
            need = 1;
        }
    }
    let mut pad = String::new();
    let mut k: u64 = 0;
    while k < need
        invariant
            k <= need,
            pad@ == zeros(k as nat),
        decreases need - k,
    {
        pad.append("0");
        proof {
            reveal_strlit("0");
            assert("0"@ =~= seq!['0']);
            lemma_zeros_snoc(k as nat);
            assert(pad@ =~= zeros((k + 1) as nat));
        }
        k = k + 1;
    }
    pad.append(digits.as_str());
    proof {
        lemma_pad_concat(n as nat, width as nat, need as nat);
    }
    pad
}

/// `HH:MM:SS` rendering of an elapsed duration in seconds.
pub open spec fn elapsed_spec(secs: nat) -> Seq<char> {
    padded_dec_spec(secs / 3600, 2) + seq![':'] + padded_dec_spec(secs / 60 % 60, 2) + seq![':']
        + padded_dec_spec(secs % 60, 2)
}

/// Formats an elapsed duration as `HH:MM:SS`.
pub fn format_elapsed(secs: u64) -> (r: String)
    ensures
        r@ == elapsed_spec(secs as nat),
{
    proof {
        reveal_strlit(":");
    }
    let mut s = padded_dec(secs / 60 / 60, 2);
    s.append(":");
    let m = padded_dec(secs / 60 % 60, 2);
    s.append(m.as_str());
    s.append(":");
    let sec = padded_dec(secs % 60, 2);
    s.append(sec.as_str());
    proof {
        assert(secs as int / 60 / 60 == secs as int / 3600) by {
            vstd::arithmetic::div_mod::lemma_div_denominator(secs as int, 60, 60);
        }
        assert(s@ =~= elapsed_spec(secs as nat));
    }
    s
}

/// `YYYY-MM-DD:HH:MM:SS` rendering of a wall-clock timestamp.
pub open spec fn timestamp_spec(
    year: nat,
    month: nat,
    day: nat,
    hour: nat,
    minute: nat,
    second: nat,
) -> Seq<char> {
    padded_dec_spec(year, 4) + seq!['-'] + padded_dec_spec(month, 2) + seq!['-'] + padded_dec_spec(
        day,
        2,
    ) + seq![':'] + padded_dec_spec(hour, 2) + seq![':'] + padded_dec_spec(minute, 2) + seq![':']
        + padded_dec_spec(second, 2)
}

/// Formats a wall-clock timestamp as `YYYY-MM-DD:HH:MM:SS`, the shape used
/// in archive names.
pub fn format_timestamp(year: u64, month: u64, day: u64, hour: u64, minute: u64, second: u64) -> (r:
    String)
    ensures
        r@ == timestamp_spec(
            year as nat,
            month as nat,
            day as nat,
            hour as nat,
            minute as nat,
            second as nat,
        ),
{
    proof {
        reveal_strlit("-");
        reveal_strlit(":");
    }
    let mut s = padded_dec(year, 4);
    s.append("-");
    let p1 = padded_dec(month, 2);
    s.append(p1.as_str());
    s.append("-");
    let p2 = padded_dec(day, 2);
    s.append(p2.as_str());
    s.append(":");
    let p3 = padded_dec(hour, 2);
    s.append(p3.as_str());
    s.append(":");
    let p4 = padded_dec(minute, 2);
    s.append(p4.as_str());
    s.append(":");
    let p5 = padded_dec(second, 2);
    s.append(p5.as_str());
    proof {
        assert(s@ =~= timestamp_spec(
            year as nat,
            month as nat,
            day as nat,
            hour as nat,
            minute as nat,
            second as nat,
        ));
    }
    s
}

/// The archive name of a backup: the profile name, a dash, and the
/// timestamp of the moment the backup started.
pub fn archive_name(
    profile_name: &str,
    year: u64,
    month: u64,
    day: u64,
    hour: u64,
    minute: u64,
    second: u64,
) -> (r: String)
    ensures
        r@ == profile_name@ + seq!['-'] + timestamp_spec(
            year as nat,
            month as nat,
            day as nat,
            hour as nat,
            minute as nat,
            second as nat,
        ),
{
    proof {
        reveal_strlit("-");
    }
    let mut s = profile_name.to_owned();
    s.append("-");
    let ts = format_timestamp(year, month, day, hour, minute, second);
    s.append(ts.as_str());
    proof {
        assert(s@ =~= profile_name@ + seq!['-'] + timestamp_spec(
            year as nat,
            month as nat,
            day as nat,
            hour as nat,
            minute as nat,
            second as nat,
        ));
    }
    s
}

/// Whether a `::` separator starts at position `i`.
pub open spec fn double_colon_at(s: Seq<char>, i: int) -> bool {
    0 <= i && i + 1 < s.len() && s[i] == ':' && s[i + 1] == ':'
}

/// The position of the first `::` separator, if any.
pub open spec fn find_double_colon_spec(s: Seq<char>) -> Option<int> {
    if exists|j: int| double_colon_at(s, j) {
        Some(
            choose|j: int|
                double_colon_at(s, j) && forall|k: int| 0 <= k < j ==> !double_colon_at(s, k),
        )
    } else {
        None
    }
}

proof fn lemma_find_double_colon_spec(s: Seq<char>, i: int)
    requires
        double_colon_at(s, i),
        forall|j: int| 0 <= j < i ==> !double_colon_at(s, j),
    ensures
        find_double_colon_spec(s) == Some(i),
{
    assert(exists|j: int| double_colon_at(s, j));
    let w = choose|j: int|
        double_colon_at(s, j) && forall|k: int| 0 <= k < j ==> !double_colon_at(s, k);
    assert(double_colon_at(s, i) && forall|k: int| 0 <= k < i ==> !double_colon_at(s, k));
    if w != i {
        if w < i {
            assert(!double_colon_at(s, w));
        } else {
            assert(!double_colon_at(s, i));
        }
    }
}

/// Finds the first `::` separator in `s`, if any.
pub fn find_double_colon(s: &str) -> (r: Option<usize>)
    ensures
        match r {
            Some(i) => double_colon_at(s@, i as int) && find_double_colon_spec(s@) == Some(
                i as int,
            ),
            None => find_double_colon_spec(s@) is None,
        },
{
    let len = s.unicode_len();
    if len < 2 {
        return None;
    }
    let mut i: usize = 0;
    while i + 1 < len
        invariant
            len == s@.len(),
            i + 1 <= len,
            forall|j: int| 0 <= j < i ==> !double_colon_at(s@, j),
        decreases len - i,
    {
        if s.get_char(i) == ':' && s.get_char(i + 1) == ':' {
            proof {
                lemma_find_double_colon_spec(s@, i as int);
            }
            return Some(i);
        }
        i = i + 1;
    }
    None
}

/// The repository part of a `repository::archive` selector: everything
/// before the first `::`, or the whole string when no `::` occurs.
#[verifier::rlimit(100)]
pub fn repo_name_of(repo_or_archive: &str) -> (r: String)
    ensures
        match find_double_colon_spec(repo_or_archive@) {
            Some(i) => r@ == repo_or_archive@.take(i),
            None => r@ == repo_or_archive@,
        },
{
    match find_double_colon(repo_or_archive) {
        Some(i) => {
            let r = repo_or_archive.substring_char(0, i).to_owned();
            proof {
                assert(find_double_colon_spec(repo_or_archive@) == Some(i as int));
                assert(r@ == repo_or_archive@.subrange(0, i as int));
                assert(repo_or_archive@.take(i as int) == repo_or_archive@.subrange(0, i as int));
            }
            r
        },
        None => repo_or_archive.to_owned(),
    }
}

} // verus!

verus! {

/// The repository name a `repository::archive` selector refers to.
pub open spec fn repo_source_name(s: Seq<char>) -> Seq<char> {
    match find_double_colon_spec(s) {
        Some(i) => s.take(i),
        None => s,
    }
}

} // verus!

verus! {

/// `seq_lt` is transitive.
pub proof fn lemma_seq_lt_trans(a: Seq<char>, b: Seq<char>, c: Seq<char>)
    requires
        seq_lt(a, b),
        seq_lt(b, c),
    ensures
        seq_lt(a, c),
    decreases a.len(),
{
    if a.len() == 0 {
    } else {
        // a < b forces b nonempty; b < c forces c nonempty
        if a[0] == b[0] && b[0] == c[0] {
            lemma_seq_lt_trans(a.skip(1), b.skip(1), c.skip(1));
        }
    }
}

/// Whether `s` holds the character `c` anywhere.
pub open spec fn contains_char(s: Seq<char>, c: char) -> bool {
    exists|i: int| 0 <= i < s.len() && s[i] == c
}

/// Whether the string holds the character `c`.
pub fn str_contains_char(s: &str, c: char) -> (r: bool)
    ensures
        r == contains_char(s@, c),
{
    let len = s.unicode_len();
    let mut i: usize = 0;
    while i < len
        invariant
            i <= len,
            len == s@.len(),
            forall|j: int| 0 <= j < i ==> s@[j] != c,
        decreases len - i,
    {
        if s.get_char(i) == c {
            return true;
        }
        i = i + 1;
    }
    false
}

} // verus!

verus! {

/// A fresh vector holding the same strings.
pub fn clone_string_vec(list: &Vec<String>) -> (r: Vec<String>)
    ensures
        r@.map_values(|s: String| s@) == list@.map_values(|s: String| s@),
{
    let mut out: Vec<String> = Vec::new();
    let mut i: usize = 0;
    proof {
        assert(out@.map_values(|s: String| s@) =~= list@.map_values(|s: String| s@).take(0));
    }
    while i < list.len()
        invariant
            i <= list@.len(),
            out@.map_values(|s: String| s@) == list@.map_values(|s: String| s@).take(i as int),
        decreases list@.len() - i,
    {
        let ghost prev = out@.map_values(|s: String| s@);
        let ghost lv = list@.map_values(|s: String| s@);
        proof {
            assert(lv[i as int] == list@[i as int]@);
        }
        out.push(list[i].clone());
        proof {
            assert(out@.map_values(|s: String| s@) =~= prev.push(lv[i as int]));
            assert(lv.take(i + 1) =~= lv.take(i as int).push(lv[i as int]));
        }
        i = i + 1;
    }
    proof {
        let lv = list@.map_values(|s: String| s@);
        assert(lv.take(lv.len() as int) =~= lv);
    }
    out
}

} // verus!
