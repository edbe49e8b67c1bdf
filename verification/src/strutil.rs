//! Verified helpers over text: locating line breaks and comments, trimming,
//! splitting a line into whitespace-separated tokens, reading a decimal
//! index, and printing a counter in decimal. Every executable function is
//! specified against a spec function over the string's view.
use vstd::prelude::*;

verus! {

/// Characters treated as blank space inside one line of VM source.
pub open spec fn is_space_char(c: char) -> bool {
    c == ' ' || c == '\t' || c == '\r'
}

pub fn is_space(c: char) -> (r: bool)
    ensures
        r == is_space_char(c),
{
    c == ' ' || c == '\t' || c == '\r'
}

/// Index of the first line break at or after `i`, or the length if none.
pub open spec fn line_end(s: Seq<char>, i: int) -> int
    decreases s.len() - i,
{
    if i < 0 || i >= s.len() {
        s.len() as int
    } else if s[i] == '\n' {
        i
    } else {
        line_end(s, i + 1)
    }
}

pub proof fn lemma_line_end_bounds(s: Seq<char>, i: int)
    requires
        0 <= i <= s.len(),
    ensures
        i <= line_end(s, i) <= s.len(),
    decreases s.len() - i,
{
    if i < s.len() && s[i] != '\n' {
        lemma_line_end_bounds(s, i + 1);
    }
}

pub fn find_line_end(s: &str, from: usize) -> (r: usize)
    requires
        from <= s@.len(),
    ensures
        r == line_end(s@, from as int),
        from <= r <= s@.len(),
{
    let n = s.unicode_len();
    let mut i = from;
    while i < n
        invariant
            from <= i <= n,
            n == s@.len(),
            line_end(s@, from as int) == line_end(s@, i as int),
        decreases n - i,
    {
        if s.get_char(i) == '\n' {
            return i;
        }
        i = i + 1;
    }
    i
}

/// Index of the first occurrence of the two-character comment marker `//`
/// at or after `i`, or the length if there is none.
pub open spec fn comment_start(s: Seq<char>, i: int) -> int
    decreases s.len() - i,
{
    if i < 0 || i + 1 >= s.len() {
        s.len() as int
    } else if s[i] == '/' && s[i + 1] == '/' {
        i
    } else {
        comment_start(s, i + 1)
    }
}

pub proof fn lemma_comment_start_bounds(s: Seq<char>, i: int)
    requires
        0 <= i <= s.len(),
    ensures
        i <= comment_start(s, i) <= s.len(),
    decreases s.len() - i,
{
    if i + 1 < s.len() && !(s[i] == '/' && s[i + 1] == '/') {
        lemma_comment_start_bounds(s, i + 1);
    }
}

pub fn find_comment_start(s: &str) -> (r: usize)
    ensures
        r == comment_start(s@, 0),
        r <= s@.len(),
{
    let n = s.unicode_len();
    if n == 0 {
        return 0;
    }
    let mut i: usize = 0;
    while i < n - 1
        invariant
            i <= n,
            0 < n == s@.len(),
            comment_start(s@, 0) == comment_start(s@, i as int),
        decreases n - i,
    {
        if s.get_char(i) == '/' && s.get_char(i + 1) == '/' {
            proof {
                lemma_comment_start_bounds(s@, 0);
            }
            return i;
        }
        i = i + 1;
    }
    proof {
        lemma_comment_start_bounds(s@, 0);
    }
    n
}

/// Index of the first character at or after `i` that is not blank space,
/// or the length if the rest of the line is blank.
pub open spec fn trim_start_idx(s: Seq<char>, i: int) -> int
    decreases s.len() - i,
{
    if i < 0 || i >= s.len() {
        s.len() as int
    } else if is_space_char(s[i]) {
        trim_start_idx(s, i + 1)
    } else {
        i
    }
}

pub proof fn lemma_trim_start_bounds(s: Seq<char>, i: int)
    requires
        0 <= i <= s.len(),
    ensures
        i <= trim_start_idx(s, i) <= s.len(),
    decreases s.len() - i,
{
    if i < s.len() && is_space_char(s[i]) {
        lemma_trim_start_bounds(s, i + 1);
    }
}

/// One past the last character before `i` that is not blank space,
/// or zero if everything before `i` is blank.
pub open spec fn trim_end_idx(s: Seq<char>, i: int) -> int
    decreases i,
{
    if i <= 0 || i > s.len() {
        0
    } else if is_space_char(s[i - 1]) {
        trim_end_idx(s, i - 1)
    } else {
        i
    }
}

pub proof fn lemma_trim_end_bounds(s: Seq<char>, i: int)
    requires
        0 <= i <= s.len(),
    ensures
        0 <= trim_end_idx(s, i) <= i,
    decreases i,
{
    if 0 < i && is_space_char(s[i - 1]) {
        lemma_trim_end_bounds(s, i - 1);
    }
}

/// The line with blank space removed from both ends.
pub open spec fn trim_view(s: Seq<char>) -> Seq<char> {
    let a = trim_start_idx(s, 0);
    let b = trim_end_idx(s, s.len() as int);
    if a < b {
        s.subrange(a, b)
    } else {
        Seq::empty()
    }
}

/// A raw source line after comment removal and trimming.
pub open spec fn clean_line(s: Seq<char>) -> Seq<char> {
    trim_view(s.take(comment_start(s, 0)))
}

fn find_trim_start(s: &str) -> (r: usize)
    ensures
        r == trim_start_idx(s@, 0),
        r <= s@.len(),
{
    let n = s.unicode_len();
    let mut i: usize = 0;
    while i < n
        invariant
            i <= n,
            n == s@.len(),
            trim_start_idx(s@, 0) == trim_start_idx(s@, i as int),
        decreases n - i,
    {
        if !is_space(s.get_char(i)) {
            return i;
        }
        i = i + 1;
    }
    i
}

fn find_trim_end(s: &str) -> (r: usize)
    ensures
        r == trim_end_idx(s@, s@.len() as int),
        r <= s@.len(),
{
    let n = s.unicode_len();
    let mut i: usize = n;
    while i > 0
        invariant
            i <= n,
            n == s@.len(),
            trim_end_idx(s@, n as int) == trim_end_idx(s@, i as int),
        decreases i,
    {
        if !is_space(s.get_char(i - 1)) {
            return i;
        }
        i = i - 1;
    }
    0
}

/// Strips the trailing comment, then blank space from both ends.
pub fn clean_str(line: &str) -> (r: String)
    ensures
        r@ == clean_line(line@),
{
    let c = find_comment_start(line);
    let stripped = line.substring_char(0, c);
    let a = find_trim_start(stripped);
    let b = find_trim_end(stripped);
    if a < b {
        stripped.substring_char(a, b).to_owned()
    } else {
        String::new()
    }
}

/// The ordered sequence of meaningful instruction lines in a raw text:
/// each physical line with its comment removed and blank space trimmed,
/// blank results dropped.
pub open spec fn normalize_from(s: Seq<char>, i: int) -> Seq<Seq<char>>
    decreases s.len() + 1 - i,
    via normalize_from_dec
{
    if i < 0 || i >= s.len() {
        Seq::empty()
    } else {
        let e = line_end(s, i);
        let cl = clean_line(s.subrange(i, e));
        let rest = normalize_from(s, e + 1);
        if cl.len() == 0 {
            rest
        } else {
            seq![cl] + rest
        }
    }
}

#[via_fn]
proof fn normalize_from_dec(s: Seq<char>, i: int) {
    if 0 <= i < s.len() {
        lemma_line_end_bounds(s, i);
    }
}

pub open spec fn normalize_view(s: Seq<char>) -> Seq<Seq<char>> {
    normalize_from(s, 0)
}

/// There are never more meaningful lines than characters in the input.
pub proof fn lemma_normalize_count(s: Seq<char>, i: int)
    requires
        0 <= i,
    ensures
        normalize_from(s, i).len() <= s.len() - i || normalize_from(s, i).len() == 0,
    decreases s.len() + 1 - i,
{
    if i < s.len() {
        lemma_line_end_bounds(s, i);
        lemma_normalize_count(s, line_end(s, i) + 1);
    }
}

pub fn normalize(s: &str) -> (r: Vec<String>)
    requires
        s@.len() < usize::MAX,
    ensures
        r.deep_view() == normalize_view(s@),
        r.deep_view().len() <= s@.len(),
{
    let n = s.unicode_len();
    let mut r: Vec<String> = Vec::new();
    let mut i: usize = 0;
    while i < n
        invariant
            n == s@.len(),
            n < usize::MAX,
            i <= n || i == n + 1,
            r.deep_view() + normalize_from(s@, i as int) == normalize_from(s@, 0),
        decreases n + 1 - i,
    {
        let e = find_line_end(s, i);
        let line = s.substring_char(i, e);
        let cl = clean_str(line);
        proof {
            assert(line@ == s@.subrange(i as int, e as int));
        }
        if cl.unicode_len() > 0 {
            let ghost prev = r.deep_view();
            r.push(cl);
            proof {
                assert(r.deep_view() =~= prev + seq![cl@]);
                assert(seq![cl@] + normalize_from(s@, e + 1 as int)
                    =~= normalize_from(s@, i as int));
                assert(r.deep_view() + normalize_from(s@, e + 1) =~= normalize_from(s@, 0));
            }
        }
        i = e + 1;
    }
    proof {
        assert(normalize_from(s@, i as int) =~= Seq::<Seq<char>>::empty());
        assert(r.deep_view() =~= normalize_from(s@, 0));
        lemma_normalize_count(s@, 0);
    }
    r
}

/// Index of the first blank-space character at or after `i`, or the length.
pub open spec fn token_end(s: Seq<char>, i: int) -> int
    decreases s.len() - i,
{
    if i < 0 || i >= s.len() {
        s.len() as int
    } else if is_space_char(s[i]) {
        i
    } else {
        token_end(s, i + 1)
    }
}

pub proof fn lemma_token_end_bounds(s: Seq<char>, i: int)
    requires
        0 <= i <= s.len(),
    ensures
        i <= token_end(s, i) <= s.len(),
    decreases s.len() - i,
{
    if i < s.len() && !is_space_char(s[i]) {
        lemma_token_end_bounds(s, i + 1);
    }
}

fn find_token_end(s: &str, from: usize) -> (r: usize)
    requires
        from <= s@.len(),
    ensures
        r == token_end(s@, from as int),
        from <= r <= s@.len(),
{
    let n = s.unicode_len();
    let mut i = from;
    while i < n
        invariant
            from <= i <= n,
            n == s@.len(),
            token_end(s@, from as int) == token_end(s@, i as int),
        decreases n - i,
    {
        if is_space(s.get_char(i)) {
            return i;
        }
        i = i + 1;
    }
    i
}

/// The whitespace-separated tokens of one line, in order.
pub open spec fn tokens_from(s: Seq<char>, i: int) -> Seq<Seq<char>>
    decreases s.len() - i,
    via tokens_from_dec
{
    if i < 0 || i >= s.len() {
        Seq::empty()
    } else if is_space_char(s[i]) {
        tokens_from(s, i + 1)
    } else {
        let e = token_end(s, i);
        seq![s.subrange(i, e)] + tokens_from(s, e)
    }
}

#[via_fn]
proof fn tokens_from_dec(s: Seq<char>, i: int) {
    if 0 <= i < s.len() && !is_space_char(s[i]) {
        assert(token_end(s, i) == token_end(s, i + 1));
        lemma_token_end_bounds(s, i + 1);
    }
}

pub open spec fn tokens_view(s: Seq<char>) -> Seq<Seq<char>> {
    tokens_from(s, 0)
}

pub fn tokens(s: &str) -> (r: Vec<String>)
    ensures
        r.deep_view() == tokens_view(s@),
{
    let n = s.unicode_len();
    let mut r: Vec<String> = Vec::new();
    let mut i: usize = 0;
    while i < n
        invariant
            i <= n,
            n == s@.len(),
            r.deep_view() + tokens_from(s@, i as int) == tokens_from(s@, 0),
        decreases n - i,
    {
        if is_space(s.get_char(i)) {
            i = i + 1;
        } else {
            let e = find_token_end(s, i + 1);
            proof {
                assert(token_end(s@, i as int) == token_end(s@, i + 1 as int));
            }
            let t = s.substring_char(i, e).to_owned();
            let ghost prev = r.deep_view();
            r.push(t);
            proof {
                assert(r.deep_view() =~= prev + seq![t@]);
                assert(seq![t@] + tokens_from(s@, e as int) =~= tokens_from(s@, i as int));
                assert(r.deep_view() + tokens_from(s@, e as int) =~= tokens_from(s@, 0));
            }
            i = e;
        }
    }
    proof {
        assert(tokens_from(s@, i as int) =~= Seq::<Seq<char>>::empty());
        assert(r.deep_view() =~= tokens_from(s@, 0));
    }
    r
}

/// The `k`-th whitespace-separated token of the line, if the line has one.
pub open spec fn nth_token(s: Seq<char>, k: int) -> Option<Seq<char>> {
    let ts = tokens_view(s);
    if 0 <= k < ts.len() {
        Some(ts[k])
    } else {
        None
    }
}

pub fn get_token(s: &str, k: usize) -> (r: Option<String>)
    ensures
        r.deep_view() == nth_token(s@, k as int),
{
    let ts = tokens(s);
    if k < ts.len() {
        Some(ts[k].clone())
    } else {
        None
    }
}

/// Compares two string slices character by character.
pub fn str_eq(a: &str, b: &str) -> (r: bool)
    ensures
        r == (a@ == b@),
{
    let na = a.unicode_len();
    let nb = b.unicode_len();
    if na != nb {
        return false;
    }
    let mut i: usize = 0;
    while i < na
        invariant
            i <= na,
            na == a@.len(),
            na == b@.len(),
            forall|j: int| 0 <= j < i ==> a@[j] == b@[j],
        decreases na - i,
    {
        if s_neq_char(a.get_char(i), b.get_char(i)) {
            return false;
        }
        i = i + 1;
    }
    proof {
        assert(a@ =~= b@);
    }
    true
}

fn s_neq_char(a: char, b: char) -> (r: bool)
    ensures
        r == (a != b),
{
    a != b
}

pub open spec fn is_digit_char(c: char) -> bool {
    c == '0' || c == '1' || c == '2' || c == '3' || c == '4' || c == '5' || c == '6' || c == '7'
        || c == '8' || c == '9'
}

pub open spec fn digit_val(c: char) -> nat {
    if c == '0' {
        0
    } else if c == '1' {
        1
    } else if c == '2' {
        2
    } else if c == '3' {
        3
    } else if c == '4' {
        4
    } else if c == '5' {
        5
    } else if c == '6' {
        6
    } else if c == '7' {
        7
    } else if c == '8' {
        8
    } else {
        9
    }
}

pub open spec fn all_digits(t: Seq<char>) -> bool {
    forall|i: int| 0 <= i < t.len() ==> is_digit_char(#[trigger] t[i])
}

/// The value of a digit string read left to right.
pub open spec fn digits_val(t: Seq<char>) -> nat
    decreases t.len(),
{
    if t.len() == 0 {
        0
    } else {
        digits_val(t.drop_last()) * 10 + digit_val(t.last())
    }
}

/// What a well-formed index operand denotes: a non-empty digit string whose
/// value fits in sixteen bits.
pub open spec fn parse_index(t: Seq<char>) -> Option<u16> {
    if t.len() > 0 && all_digits(t) && digits_val(t) <= 65535 {
        Some(digits_val(t) as u16)
    } else {
        None
    }
}

pub proof fn lemma_digits_val_prefix_le(t: Seq<char>, i: int)
    requires
        0 <= i <= t.len(),
    ensures
        digits_val(t.subrange(0, i)) <= digits_val(t),
    decreases t.len() - i,
{
    if i < t.len() {
        let a = t.subrange(0, i);
        let b = t.subrange(0, i + 1);
        assert(b.drop_last() =~= a);
        assert(digits_val(b) == digits_val(a) * 10 + digit_val(b.last()));
        lemma_digits_val_prefix_le(t, i + 1);
    } else {
        assert(t.subrange(0, i) =~= t);
    }
}

fn is_digit(c: char) -> (r: bool)
    ensures
        r == is_digit_char(c),
{
    c == '0' || c == '1' || c == '2' || c == '3' || c == '4' || c == '5' || c == '6' || c == '7'
        || c == '8' || c == '9'
}

fn digit_val_exec(c: char) -> (r: u32)
    requires
        is_digit_char(c),
    ensures
        r == digit_val(c),
        r <= 9,
{
    if c == '0' {
        0
    } else if c == '1' {
        1
    } else if c == '2' {
        2
    } else if c == '3' {
        3
    } else if c == '4' {
        4
    } else if c == '5' {
        5
    } else if c == '6' {
        6
    } else if c == '7' {
        7
    } else if c == '8' {
        8
    } else {
        9
    }
}

/// Reads a decimal index operand; `None` where the token is empty, has a
/// character that is no digit, or names a value above 65535.
pub fn parse_u16_str(t: &str) -> (r: Option<u16>)
    ensures
        r == parse_index(t@),
{
    let n = t.unicode_len();
    if n == 0 {
        return None;
    }
    let mut acc: u32 = 0;
    let mut i: usize = 0;
    while i < n
        invariant
            i <= n,
            n == t@.len(),
            n > 0,
            forall|j: int| 0 <= j < i ==> is_digit_char(#[trigger] t@[j]),
            acc == digits_val(t@.subrange(0, i as int)),
            acc <= 65535,
        decreases n - i,
    {
        let c = t.get_char(i);
        if !is_digit(c) {
            return None;
        }
        let d = digit_val_exec(c);
        let next = acc * 10 + d;
        proof {
            let a = t@.subrange(0, i as int);
            let b = t@.subrange(0, i + 1 as int);
            assert(b.drop_last() =~= a);
            assert(b.last() == t@[i as int]);
        }
        if next > 65535 {
            proof {
                lemma_digits_val_prefix_le(t@, i + 1 as int);
            }
            return None;
        }
        acc = next;
        i = i + 1;
    }
    proof {
        assert(t@.subrange(0, n as int) =~= t@);
    }
    Some(acc as u16)
}

pub open spec fn dec_digit(n: nat) -> char {
    if n == 0 {
        '0'
    } else if n == 1 {
        '1'
    } else if n == 2 {
        '2'
    } else if n == 3 {
        '3'
    } else if n == 4 {
        '4'
    } else if n == 5 {
        '5'
    } else if n == 6 {
        '6'
    } else if n == 7 {
        '7'
    } else if n == 8 {
        '8'
    } else {
        '9'
    }
}

/// The decimal rendering of a number, most significant digit first.
pub open spec fn dec_rep(n: nat) -> Seq<char>
    decreases n,
{
    if n < 10 {
        seq![dec_digit(n)]
    } else {
        dec_rep(n / 10) + seq![dec_digit(n % 10)]
    }
}

fn dec_digit_str(n: u64) -> (r: &'static str)
    requires
        n < 10,
    ensures
        r@ == seq![dec_digit(n as nat)],
{
    proof {
        reveal_strlit("0");
        reveal_strlit("1");
        reveal_strlit("2");
        reveal_strlit("3");
        reveal_strlit("4");
        reveal_strlit("5");
        reveal_strlit("6");
        reveal_strlit("7");
        reveal_strlit("8");
        reveal_strlit("9");
    }
    let r = if n == 0 {
        "0"
    } else if n == 1 {
        "1"
    } else if n == 2 {
        "2"
    } else if n == 3 {
        "3"
    } else if n == 4 {
        "4"
    } else if n == 5 {
        "5"
    } else if n == 6 {
        "6"
    } else if n == 7 {
        "7"
    } else if n == 8 {
        "8"
    } else {
        "9"
    };
    proof {
        assert(r@ =~= seq![dec_digit(n as nat)]);
    }
    r
}

pub fn u64_to_string(n: u64) -> (r: String)
    ensures
        r@ == dec_rep(n as nat),
    decreases n,
{
    if n < 10 {
        dec_digit_str(n).to_owned()
    } else {
        let mut s = u64_to_string(n / 10);
        let d = dec_digit_str(n % 10);
        s.append(d);
        proof {
            assert(s@ =~= dec_rep(n as nat));
        }
        s
    }
}

pub fn u16_to_string(n: u16) -> (r: String)
    ensures
        r@ == dec_rep(n as nat),
{
    u64_to_string(n as u64)
}

/// Decimal rendering reads back to the number it was made from.
pub proof fn lemma_dec_rep_val(n: nat)
    ensures
        digits_val(dec_rep(n)) == n,
        dec_rep(n).len() >= 1,
    decreases n,
{
    if n < 10 {
        let s1 = seq![dec_digit(n)];
        assert(dec_rep(n) =~= s1);
        assert(s1.drop_last() =~= Seq::<char>::empty());
        assert(digits_val(Seq::<char>::empty()) == 0);
        assert(s1.last() == dec_digit(n));
        assert(digits_val(s1) == digits_val(s1.drop_last()) * 10 + digit_val(s1.last()));
        assert(digit_val(dec_digit(n)) == n);
    } else {
        lemma_dec_rep_val(n / 10);
        let r = dec_rep(n);
        assert(r.drop_last() =~= dec_rep(n / 10));
        assert(r.last() == dec_digit(n % 10));
        assert(digit_val(dec_digit(n % 10)) == n % 10);
        assert(digits_val(r) == (n / 10) * 10 + n % 10);
        assert((n / 10) * 10 + n % 10 == n) by {
            vstd::arithmetic::div_mod::lemma_fundamental_div_mod(n as int, 10);
        }
    }
}

/// Distinct numbers render to distinct decimal strings.
pub proof fn lemma_dec_rep_injective(a: nat, b: nat)
    requires
        dec_rep(a) == dec_rep(b),
    ensures
        a == b,
{
    lemma_dec_rep_val(a);
    lemma_dec_rep_val(b);
}

} // verus!
