//! The configuration file's data model and its grammar: a `[comodo]`
//! table of durations written `mm:ss`, an iteration count, notification
//! flags, banner texts and audio paths.

use vstd::prelude::*;

use crate::errors::ConfigError;
use crate::session::SessionConfig;

verus! {

/// A color triple, red, green and blue.
#[derive(Clone, Copy, Debug, PartialEq, Eq, Structural)]
pub struct RGB(pub u8, pub u8, pub u8);

/// The values a configuration file falls back to where it is silent.
pub struct ComodoDefaults;

impl ComodoDefaults {
    /// Default focus span: twenty-five minutes, in seconds.
    pub fn focus() -> (r: u64)
        ensures
            r == 1500,
    {
        1500
    }

    /// Default rest span: five minutes, in seconds.
    pub fn rest() -> (r: u64)
        ensures
            r == 300,
    {
        300
    }

    /// Default long rest span: fifteen minutes, in seconds.
    pub fn big_rest() -> (r: u64)
        ensures
            r == 900,
    {
        900
    }

    /// Default iteration count.
    pub fn iterations() -> (r: u8)
        ensures
            r == 4,
    {
        4
    }

    /// Popup notifications default to on.
    pub fn popup_notification() -> (r: bool)
        ensures
            r,
    {
        true
    }

    /// Audio cues default to off.
    pub fn sound_notification() -> (r: bool)
        ensures
            !r,
    {
        false
    }

    /// Default banner shown when a focus span begins.
    pub fn focus_notification_banner() -> (r: String)
        ensures
            r@ == "Focus Time!"@,
    {
        "Focus Time!".to_owned()
    }

    /// Default banner shown when a rest span begins.
    pub fn rest_notification_banner() -> (r: String)
        ensures
            r@ == "Resting Time!"@,
    {
        "Resting Time!".to_owned()
    }

    /// No focus audio cue by default.
    pub fn focus_notification_path() -> (r: Option<String>)
        ensures
            r is None,
    {
        None
    }

    /// No rest audio cue by default.
    pub fn rest_notification_path() -> (r: Option<String>)
        ensures
            r is None,
    {
        None
    }
}

/// The `[comodo]` table of a configuration file. Durations are whole
/// seconds; a missing audio path stays `None`.
#[derive(Debug, Clone)]
pub struct Comodo {
    pub iterations: u8,
    pub focus: u64,
    pub rest: u64,
    pub big_rest: u64,
    pub popup_notification: bool,
    pub sound_notification: bool,
    pub focus_notification_banner: String,
    pub rest_notification_banner: String,
    pub focus_audio_notification_path: Option<String>,
    pub rest_audio_notification_path: Option<String>,
}

/// The mathematical image of a `Comodo`.
#[verifier::ext_equal]
pub ghost struct ComodoModel {
    pub iterations: u8,
    pub focus: u64,
    pub rest: u64,
    pub big_rest: u64,
    pub popup_notification: bool,
    pub sound_notification: bool,
    pub focus_notification_banner: Seq<char>,
    pub rest_notification_banner: Seq<char>,
    pub focus_audio_notification_path: Option<Seq<char>>,
    pub rest_audio_notification_path: Option<Seq<char>>,
}

impl View for Comodo {
    type V = ComodoModel;

    open spec fn view(&self) -> ComodoModel {
        ComodoModel {
            iterations: self.iterations,
            focus: self.focus,
            rest: self.rest,
            big_rest: self.big_rest,
            popup_notification: self.popup_notification,
            sound_notification: self.sound_notification,
            focus_notification_banner: self.focus_notification_banner@,
            rest_notification_banner: self.rest_notification_banner@,
            focus_audio_notification_path: match self.focus_audio_notification_path {
                Some(ref p) => Some(p@),
                None => None,
            },
            rest_audio_notification_path: match self.rest_audio_notification_path {
                Some(ref p) => Some(p@),
                None => None,
            },
        }
    }
}

/// A whole configuration file: its `[comodo]` table.
#[derive(Debug)]
pub struct Config {
    pub comodo: Comodo,
}

impl View for Config {
    type V = ComodoModel;

    open spec fn view(&self) -> ComodoModel {
        self.comodo@
    }
}

/// A decimal digit character.
pub open spec fn is_digit(c: char) -> bool {
    48 <= c as int <= 57
}

/// The value of one digit character.
pub open spec fn digit_val(c: char) -> int {
    c as int - 48
}

/// Whether every character is a decimal digit.
pub open spec fn all_digits(s: Seq<char>) -> bool {
    forall|i: int| 0 <= i < s.len() ==> is_digit(#[trigger] s[i])
}

/// The value a run of digit characters spells, most significant first.
pub open spec fn dec_val(s: Seq<char>) -> int
    decreases s.len(),
{
    if s.len() == 0 {
        0
    } else {
        dec_val(s.drop_last()) * 10 + digit_val(s.last())
    }
}

/// A digit run's value is never negative.
pub proof fn lemma_dec_val_nonneg(s: Seq<char>)
    requires
        all_digits(s),
    ensures
        dec_val(s) >= 0,
    decreases s.len(),
{
    if s.len() > 0 {
        assert(all_digits(s.drop_last()));
        lemma_dec_val_nonneg(s.drop_last());
    }
}

/// A digit run's value only grows as digits are appended.
pub proof fn lemma_dec_val_prefix_le(s: Seq<char>, j: int)
    requires
        all_digits(s),
        0 <= j <= s.len(),
    ensures
        dec_val(s.subrange(0, j)) <= dec_val(s),
    decreases s.len() - j,
{
    if j == s.len() {
        assert(s.subrange(0, j) =~= s);
    } else {
        let shorter = s.subrange(0, s.len() - 1);
        assert(shorter =~= s.drop_last());
        assert(all_digits(shorter));
        assert(shorter.subrange(0, j) =~= s.subrange(0, j));
        lemma_dec_val_prefix_le(shorter, j);
        lemma_dec_val_nonneg(shorter);
        assert(dec_val(s) == dec_val(shorter) * 10 + digit_val(s.last()));
        assert(digit_val(s.last()) >= 0);
    }
}

/// Parses the characters of `s` from `from` to `to` as an unsigned
/// decimal number. Yields a value exactly when the run is non-empty,
/// all digits, and its value fits a second counter.
pub fn parse_decimal(s: &str, from: usize, to: usize) -> (r: Option<u64>)
    requires
        from <= to <= s@.len(),
    ensures
        ({
            let part = s@.subrange(from as int, to as int);
            &&& r is Some <==> (part.len() > 0 && all_digits(part) && dec_val(part) <= u64::MAX)
            &&& (r matches Some(v) ==> v == dec_val(part))
        }),
{
    let ghost part = s@.subrange(from as int, to as int);
    if to == from {
        return None;
    }
    let mut acc: u64 = 0;
    let mut k = from;
    while k < to
        invariant
            from <= k <= to <= s@.len(),
            part == s@.subrange(from as int, to as int),
            all_digits(s@.subrange(from as int, k as int)),
            acc == dec_val(s@.subrange(from as int, k as int)),
        decreases to - k,
    {
        let c = s.get_char(k);
        let cv = c as u32;
        if cv < 48 || cv > 57 {
            proof {
                assert(part[k - from] == c);
                assert(!is_digit(c));
            }
            return None;
        }
        let d = (cv - 48) as u64;
        let next = match acc.checked_mul(10) {
            Some(a) => a.checked_add(d),
            None => None,
        };
        match next {
            Some(v) => {
                acc = v;
            },
            None => {
                proof {
                    let grown = s@.subrange(from as int, k as int + 1);
                    assert(grown.drop_last() =~= s@.subrange(from as int, k as int));
                    assert(grown.last() == c);
                    assert(dec_val(grown) > u64::MAX);
                    if all_digits(part) {
                        assert(part.subrange(0, k + 1 - from) =~= grown);
                        lemma_dec_val_prefix_le(part, k + 1 - from);
                    }
                }
                return None;
            },
        }
        proof {
            let grown = s@.subrange(from as int, k as int + 1);
            assert(grown.drop_last() =~= s@.subrange(from as int, k as int));
            assert(grown.last() == c);
        }
        k = k + 1;
    }
    proof {
        assert(s@.subrange(from as int, k as int) =~= part);
    }
    Some(acc)
}

/// Horizontal whitespace around keys and values, carriage return
/// included so that CRLF line ends trim away.
pub open spec fn is_ws(c: char) -> bool {
    c == ' ' || c == '\t' || c == '\r'
}

/// `s` with its leading whitespace dropped.
pub open spec fn spec_trim_front(s: Seq<char>) -> Seq<char>
    decreases s.len(),
{
    if s.len() > 0 && is_ws(s[0]) {
        spec_trim_front(s.subrange(1, s.len() as int))
    } else {
        s
    }
}

/// `s` with its trailing whitespace dropped.
pub open spec fn spec_trim_back(s: Seq<char>) -> Seq<char>
    decreases s.len(),
{
    if s.len() > 0 && is_ws(s.last()) {
        spec_trim_back(s.drop_last())
    } else {
        s
    }
}

/// `s` with whitespace dropped at both ends.
pub open spec fn spec_trim(s: Seq<char>) -> Seq<char> {
    spec_trim_back(spec_trim_front(s))
}

proof fn lemma_trim_front_chars(s: Seq<char>, a: int)
    requires
        0 <= a <= s.len(),
        forall|k: int| 0 <= k < a ==> is_ws(#[trigger] s[k]),
        a < s.len() ==> !is_ws(s[a]),
    ensures
        spec_trim_front(s) == s.subrange(a, s.len() as int),
    decreases a,
{
    if a == 0 {
        assert(s.subrange(0, s.len() as int) =~= s);
    } else {
        let t = s.subrange(1, s.len() as int);
        lemma_trim_front_chars(t, a - 1);
        assert(t.subrange(a - 1, t.len() as int) =~= s.subrange(a, s.len() as int));
    }
}

proof fn lemma_trim_back_chars(s: Seq<char>, b: int)
    requires
        0 <= b <= s.len(),
        forall|k: int| b <= k < s.len() ==> is_ws(#[trigger] s[k]),
        b > 0 ==> !is_ws(s[b - 1]),
    ensures
        spec_trim_back(s) == s.subrange(0, b),
    decreases s.len() - b,
{
    if b == s.len() {
        assert(s.subrange(0, b) =~= s);
    } else {
        let t = s.drop_last();
        lemma_trim_back_chars(t, b);
        assert(t.subrange(0, b) =~= s.subrange(0, b));
    }
}

/// Whether this character is configuration whitespace.
fn is_ws_char(c: char) -> (r: bool)
    ensures
        r == is_ws(c),
{
    c == ' ' || c == '\t' || c == '\r'
}

/// The slice of `s` with whitespace dropped at both ends, exactly as
/// `spec_trim` states.
pub fn trim_str<'a>(s: &'a str) -> (r: &'a str)
    ensures
        r@ == spec_trim(s@),
{
    let len = s.unicode_len();
    let mut a: usize = 0;
    while a < len && is_ws_char(s.get_char(a))
        invariant
            0 <= a <= len == s@.len(),
            forall|k: int| 0 <= k < a ==> is_ws(#[trigger] s@[k]),
        decreases len - a,
    {
        a = a + 1;
    }
    if a == len {
        proof {
            lemma_trim_front_chars(s@, a as int);
            assert(s@.subrange(len as int, len as int) =~= Seq::<char>::empty());
            reveal_strlit("");
        }
        return "";
    }
    let mut b: usize = len;
    while b > a && is_ws_char(s.get_char(b - 1))
        invariant
            a <= b <= len == s@.len(),
            a < len,
            !is_ws(s@[a as int]),
            forall|k: int| b <= k < len ==> is_ws(#[trigger] s@[k]),
        decreases b,
    {
        b = b - 1;
    }
    let r = s.substring_char(a, b);
    proof {
        lemma_trim_front_chars(s@, a as int);
        let t = s@.subrange(a as int, len as int);
        assert(b > a);
        assert(!is_ws(t[(b - a - 1) as int]));
        lemma_trim_back_chars(t, b - a);
        assert(t.subrange(0, b - a) =~= s@.subrange(a as int, b as int));
    }
    r
}

/// Whether two texts hold the same characters.
pub fn str_eq(a: &str, b: &str) -> (r: bool)
    ensures
        r == (a@ == b@),
{
    let la = a.unicode_len();
    let lb = b.unicode_len();
    if la != lb {
        return false;
    }
    let mut i: usize = 0;
    while i < la
        invariant
            0 <= i <= la == a@.len(),
            la == lb == b@.len(),
            forall|k: int| 0 <= k < i ==> a@[k] == b@[k],
        decreases la - i,
    {
        if s_neq(a.get_char(i), b.get_char(i)) {
            return false;
        }
        i = i + 1;
    }
    proof {
        assert(a@ =~= b@);
    }
    true
}

/// Whether two characters differ.
fn s_neq(x: char, y: char) -> (r: bool)
    ensures
        r == (x != y),
{
    x != y
}

/// Keys compare with hyphens and underscores identified: each `-`
/// reads as `_`.
pub open spec fn spec_norm_key(s: Seq<char>) -> Seq<char> {
    s.map_values(
        |c: char|
            if c == '-' {
                '_'
            } else {
                c
            },
    )
}

/// Whether `a`, hyphens normalized to underscores, spells `b`.
pub fn norm_key_eq(a: &str, b: &str) -> (r: bool)
    ensures
        r == (spec_norm_key(a@) == b@),
{
    let la = a.unicode_len();
    let lb = b.unicode_len();
    if la != lb {
        proof {
            assert(spec_norm_key(a@).len() == a@.len());
        }
        return false;
    }
    let mut i: usize = 0;
    while i < la
        invariant
            0 <= i <= la == a@.len(),
            la == lb == b@.len(),
            forall|k: int| 0 <= k < i ==> spec_norm_key(a@)[k] == b@[k],
        decreases la - i,
    {
        let c = a.get_char(i);
        let n = if c == '-' {
            '_'
        } else {
            c
        };
        if s_neq(n, b.get_char(i)) {
            proof {
                assert(spec_norm_key(a@)[i as int] == n);
            }
            return false;
        }
        proof {
            assert(spec_norm_key(a@)[i as int] == n);
        }
        i = i + 1;
    }
    proof {
        assert(spec_norm_key(a@) =~= b@);
    }
    true
}

/// The text between the quotes of a double-quoted value that holds no
/// further quote, if the value has that shape.
pub open spec fn spec_quoted_inner(t: Seq<char>) -> Option<Seq<char>> {
    if t.len() >= 2 && t[0] == '"' && t.last() == '"' && (forall|k: int|
        1 <= k < t.len() - 1 ==> #[trigger] t[k] != '"') {
        Some(t.subrange(1, t.len() - 1))
    } else {
        None
    }
}

/// Strips one pair of surrounding quotes, exactly as
/// `spec_quoted_inner` states.
pub fn quoted_inner<'a>(t: &'a str) -> (r: Option<&'a str>)
    ensures
        match r {
            Some(inner) => spec_quoted_inner(t@) == Some(inner@),
            None => spec_quoted_inner(t@) is None,
        },
{
    let len = t.unicode_len();
    if len < 2 {
        return None;
    }
    if s_neq(t.get_char(0), '"') || s_neq(t.get_char(len - 1), '"') {
        return None;
    }
    let mut i: usize = 1;
    while i < len - 1
        invariant
            1 <= i <= len - 1,
            len == t@.len(),
            2 <= len,
            forall|k: int| 1 <= k < i ==> #[trigger] t@[k] != '"',
        decreases len - i,
    {
        if !s_neq(t.get_char(i), '"') {
            return None;
        }
        i = i + 1;
    }
    Some(t.substring_char(1, len - 1))
}

/// A first occurrence: `c` stands at `e` and nowhere earlier.
pub open spec fn is_first_idx(t: Seq<char>, c: char, e: int) -> bool {
    &&& 0 <= e < t.len()
    &&& t[e] == c
    &&& forall|k: int| 0 <= k < e ==> t[k] != c
}

/// The index of the first occurrence of `c` in `t`.
pub open spec fn first_idx(t: Seq<char>, c: char) -> int {
    choose|e: int| is_first_idx(t, c, e)
}

/// Where `t` holds `c` at all, it has a first occurrence, and
/// `first_idx` names it.
pub proof fn lemma_first_idx_exists(t: Seq<char>, c: char)
    requires
        t.contains(c),
    ensures
        is_first_idx(t, c, first_idx(t, c)),
    decreases t.len(),
{
    if t[0] == c {
        assert(is_first_idx(t, c, 0));
    } else {
        let t2 = t.subrange(1, t.len() as int);
        let i = choose|i: int| 0 <= i < t.len() && t[i] == c;
        assert(t2[i - 1] == c);
        assert(t2.contains(c));
        lemma_first_idx_exists(t2, c);
        let e2 = first_idx(t2, c);
        assert(t[e2 + 1] == t2[e2]);
        assert(forall|k: int| 1 <= k < e2 + 1 ==> t[k] == t2[k - 1]);
        assert(is_first_idx(t, c, e2 + 1));
    }
}

/// A first occurrence is unique.
pub proof fn lemma_first_idx_unique(t: Seq<char>, c: char, e1: int, e2: int)
    requires
        is_first_idx(t, c, e1),
        is_first_idx(t, c, e2),
    ensures
        e1 == e2,
{
}

/// The lines of a text, split at each newline: one more line than
/// there are newlines, and an empty text is one empty line.
pub open spec fn spec_lines(s: Seq<char>) -> Seq<Seq<char>>
    decreases s.len(),
{
    if s.len() == 0 {
        seq![Seq::<char>::empty()]
    } else if s[0] == '\n' {
        seq![Seq::<char>::empty()] + spec_lines(s.subrange(1, s.len() as int))
    } else {
        let rest = spec_lines(s.subrange(1, s.len() as int));
        seq![seq![s[0]] + rest[0]] + rest.subrange(1, rest.len() as int)
    }
}

proof fn lemma_spec_lines_len(s: Seq<char>)
    ensures
        spec_lines(s).len() >= 1,
    decreases s.len(),
{
    if s.len() > 0 {
        lemma_spec_lines_len(s.subrange(1, s.len() as int));
    }
}

proof fn lemma_spec_lines_no_nl(s: Seq<char>)
    requires
        forall|k: int| 0 <= k < s.len() ==> s[k] != '\n',
    ensures
        spec_lines(s) == seq![s],
    decreases s.len(),
{
    if s.len() == 0 {
        assert(spec_lines(s) =~~= seq![s]);
    } else {
        let t = s.subrange(1, s.len() as int);
        lemma_spec_lines_no_nl(t);
        assert(seq![s[0]] + t =~= s);
        assert(spec_lines(s) =~~= seq![s]);
    }
}

proof fn lemma_spec_lines_first_nl(s: Seq<char>, i: int)
    requires
        0 <= i < s.len(),
        s[i] == '\n',
        forall|k: int| 0 <= k < i ==> s[k] != '\n',
    ensures
        spec_lines(s) == seq![s.subrange(0, i)] + spec_lines(s.subrange(i + 1, s.len() as int)),
    decreases i,
{
    if i == 0 {
        assert(s.subrange(0, 0) =~= Seq::<char>::empty());
        assert(spec_lines(s) =~~= seq![s.subrange(0, 0)] + spec_lines(
            s.subrange(1, s.len() as int),
        ));
    } else {
        let t = s.subrange(1, s.len() as int);
        assert(t[i - 1] == '\n');
        lemma_spec_lines_first_nl(t, i - 1);
        lemma_spec_lines_len(t.subrange(i, t.len() as int));
        assert(t.subrange(0, i - 1) =~= s.subrange(1, i));
        assert(t.subrange(i, t.len() as int) =~= s.subrange(i + 1, s.len() as int));
        assert(seq![s[0]] + s.subrange(1, i) =~= s.subrange(0, i));
        assert(spec_lines(s) =~~= seq![s.subrange(0, i)] + spec_lines(
            s.subrange(i + 1, s.len() as int),
        ));
    }
}

/// The lines of a text, each its own string, exactly as `spec_lines`
/// splits them.
pub fn split_lines(s: &str) -> (r: Vec<String>)
    ensures
        r@.len() == spec_lines(s@).len(),
        forall|k: int| 0 <= k < r@.len() ==> #[trigger] r@[k]@ == spec_lines(s@)[k],
{
    let len = s.unicode_len();
    let mut out: Vec<String> = Vec::new();
    let mut start: usize = 0;
    let mut finished = false;
    proof {
        assert(s@.subrange(0, len as int) =~= s@);
    }
    while !finished
        invariant
            0 <= start <= len == s@.len(),
            forall|k: int| 0 <= k < out@.len() ==> #[trigger] out@[k]@ == spec_lines(s@)[k],
            !finished ==> spec_lines(s@).len() == out@.len() + spec_lines(
                s@.subrange(start as int, len as int),
            ).len(),
            !finished ==> forall|k: int|
                0 <= k < spec_lines(s@.subrange(start as int, len as int)).len()
                    ==> #[trigger] spec_lines(s@.subrange(start as int, len as int))[k]
                    == spec_lines(s@)[out@.len() + k],
            finished ==> out@.len() == spec_lines(s@).len(),
        decreases
                len - start,
                (if finished {
                    0int
                } else {
                    1int
                }),
    {
        let ghost suffix = s@.subrange(start as int, len as int);
        let mut j: usize = start;
        while j < len && s_neq(s.get_char(j), '\n')
            invariant
                start <= j <= len == s@.len(),
                forall|k: int| start <= k < j ==> s@[k] != '\n',
            decreases len - j,
        {
            j = j + 1;
        }
        let line = s.substring_char(start, j).to_owned();
        proof {
            assert(forall|k: int|
                0 <= k < j - start ==> #[trigger] suffix[k] == s@[start + k] && suffix[k] != '\n');
            assert(line@ =~= suffix.subrange(0, j - start));
        }
        if j == len {
            proof {
                assert(suffix.subrange(0, j - start) =~= suffix);
                lemma_spec_lines_no_nl(suffix);
                assert(spec_lines(suffix)[0] == suffix);
                assert(spec_lines(suffix)[0] == spec_lines(s@)[out@.len() as int]);
                assert(line@ == spec_lines(s@)[out@.len() as int]);
            }
            out.push(line);
            finished = true;
        } else {
            proof {
                assert(suffix[j - start] == s@[j as int]);
                lemma_spec_lines_first_nl(suffix, j - start);
                let tail = s@.subrange(j + 1, len as int);
                assert(suffix.subrange(j - start + 1, suffix.len() as int) =~= tail);
                assert(spec_lines(suffix) == seq![suffix.subrange(0, j - start)] + spec_lines(
                    tail,
                ));
                assert(spec_lines(suffix)[0] == suffix.subrange(0, j - start));
                assert(spec_lines(suffix)[0] == spec_lines(s@)[out@.len() as int]);
                assert(line@ == spec_lines(s@)[out@.len() as int]);
                assert forall|k: int| 0 <= k < spec_lines(tail).len() implies #[trigger] spec_lines(
                    tail,
                )[k] == spec_lines(s@)[out@.len() + 1 + k] by {
                    assert(spec_lines(tail)[k] == spec_lines(suffix)[k + 1]);
                    assert(spec_lines(suffix)[k + 1] == spec_lines(s@)[out@.len() + (k + 1)]);
                }
            }
            out.push(line);
            start = j + 1;
        }
    }
    out
}

/// Where a `mm:ss` text splits: a colon with a non-empty digit run on
/// each side.
pub open spec fn mmss_split_at(s: Seq<char>, i: int) -> bool {
    &&& 1 <= i
    &&& i + 1 < s.len()
    &&& s[i] == ':'
    &&& all_digits(s.subrange(0, i))
    &&& all_digits(s.subrange(i + 1, s.len() as int))
}

/// A text of the form `minutes:seconds`, both sides non-empty digit
/// runs.
pub open spec fn spec_mmss_valid(s: Seq<char>) -> bool {
    exists|i: int| mmss_split_at(s, i)
}

/// The seconds a `minutes:seconds` text spells.
pub open spec fn spec_mmss_val(s: Seq<char>) -> int
    recommends
        spec_mmss_valid(s),
{
    let i = choose|i: int| mmss_split_at(s, i);
    dec_val(s.subrange(0, i)) * 60 + dec_val(s.subrange(i + 1, s.len() as int))
}

/// A `mm:ss` text splits in only one place: both sides of a split are
/// digit runs, and a digit is never a colon.
pub proof fn lemma_mmss_split_unique(s: Seq<char>, i: int, j: int)
    requires
        mmss_split_at(s, i),
        mmss_split_at(s, j),
    ensures
        i == j,
{
    if i < j {
        assert(s.subrange(0, j)[i] == s[i]);
        assert(is_digit(s[i]));
    } else if j < i {
        assert(s.subrange(0, i)[j] == s[j]);
        assert(is_digit(s[j]));
    }
}

/// What the parser has gathered so far: whether the `[comodo]` header
/// has passed, each required field once seen, and the defaulted fields
/// at their current values.
pub struct ParseAcc {
    pub seen_section: bool,
    pub iterations: Option<u8>,
    pub focus: Option<u64>,
    pub rest: Option<u64>,
    pub big_rest: Option<u64>,
    pub popup_notification: bool,
    pub sound_notification: bool,
    pub focus_notification_banner: String,
    pub rest_notification_banner: String,
    pub focus_audio_notification_path: Option<String>,
    pub rest_audio_notification_path: Option<String>,
}

/// The mathematical image of a `ParseAcc`.
#[verifier::ext_equal]
pub ghost struct ParseState {
    pub seen_section: bool,
    pub iterations: Option<u8>,
    pub focus: Option<u64>,
    pub rest: Option<u64>,
    pub big_rest: Option<u64>,
    pub popup_notification: bool,
    pub sound_notification: bool,
    pub focus_notification_banner: Seq<char>,
    pub rest_notification_banner: Seq<char>,
    pub focus_audio_notification_path: Option<Seq<char>>,
    pub rest_audio_notification_path: Option<Seq<char>>,
}

impl View for ParseAcc {
    type V = ParseState;

    open spec fn view(&self) -> ParseState {
        ParseState {
            seen_section: self.seen_section,
            iterations: self.iterations,
            focus: self.focus,
            rest: self.rest,
            big_rest: self.big_rest,
            popup_notification: self.popup_notification,
            sound_notification: self.sound_notification,
            focus_notification_banner: self.focus_notification_banner@,
            rest_notification_banner: self.rest_notification_banner@,
            focus_audio_notification_path: match self.focus_audio_notification_path {
                Some(ref p) => Some(p@),
                None => None,
            },
            rest_audio_notification_path: match self.rest_audio_notification_path {
                Some(ref p) => Some(p@),
                None => None,
            },
        }
    }
}

/// Where parsing starts: no header seen, no required field seen, and
/// the defaults in place.
pub open spec fn init_parse_state() -> ParseState {
    ParseState {
        seen_section: false,
        iterations: None,
        focus: None,
        rest: None,
        big_rest: None,
        popup_notification: true,
        sound_notification: false,
        focus_notification_banner: "Focus Time!"@,
        rest_notification_banner: "Resting Time!"@,
        focus_audio_notification_path: None,
        rest_audio_notification_path: None,
    }
}

/// A duration value: a quoted `mm:ss` text whose second count fits a
/// second counter.
pub open spec fn spec_duration_value(val: Seq<char>) -> Option<u64> {
    match spec_quoted_inner(val) {
        Some(inner) => if spec_mmss_valid(inner) && spec_mmss_val(inner) <= u64::MAX {
            Some(spec_mmss_val(inner) as u64)
        } else {
            None
        },
        None => None,
    }
}

/// A flag value: the bare word `true` or `false`.
pub open spec fn spec_bool_value(val: Seq<char>) -> Option<bool> {
    if val == "true"@ {
        Some(true)
    } else if val == "false"@ {
        Some(false)
    } else {
        None
    }
}

/// How one key sets the parse state. Durations are quoted `mm:ss`
/// texts, the iteration count a bare number up to 255, flags bare
/// `true` or `false`, banners and paths quoted texts; a key this table
/// does not know changes nothing, and a known key with a value of the
/// wrong shape is malformed. A repeated key overwrites: the last
/// occurrence wins.
pub open spec fn spec_apply_kv(p: ParseState, key: Seq<char>, val: Seq<char>) -> Result<
    ParseState,
    ConfigError,
> {
    if key == "iterations"@ {
        if val.len() > 0 && all_digits(val) && dec_val(val) <= 255 {
            Ok(ParseState { iterations: Some(dec_val(val) as u8), ..p })
        } else {
            Err(ConfigError::Malformed)
        }
    } else if key == "focus"@ {
        match spec_duration_value(val) {
            Some(d) => Ok(ParseState { focus: Some(d), ..p }),
            None => Err(ConfigError::Malformed),
        }
    } else if key == "rest"@ {
        match spec_duration_value(val) {
            Some(d) => Ok(ParseState { rest: Some(d), ..p }),
            None => Err(ConfigError::Malformed),
        }
    } else if key == "big_rest"@ {
        match spec_duration_value(val) {
            Some(d) => Ok(ParseState { big_rest: Some(d), ..p }),
            None => Err(ConfigError::Malformed),
        }
    } else if key == "popup_notification"@ {
        match spec_bool_value(val) {
            Some(b) => Ok(ParseState { popup_notification: b, ..p }),
            None => Err(ConfigError::Malformed),
        }
    } else if key == "sound_notification"@ {
        match spec_bool_value(val) {
            Some(b) => Ok(ParseState { sound_notification: b, ..p }),
            None => Err(ConfigError::Malformed),
        }
    } else if key == "focus_notification_banner"@ {
        match spec_quoted_inner(val) {
            Some(inner) => Ok(ParseState { focus_notification_banner: inner, ..p }),
            None => Err(ConfigError::Malformed),
        }
    } else if key == "rest_notification_banner"@ {
        match spec_quoted_inner(val) {
            Some(inner) => Ok(ParseState { rest_notification_banner: inner, ..p }),
            None => Err(ConfigError::Malformed),
        }
    } else if key == "focus_audio_notification_path"@ {
        match spec_quoted_inner(val) {
            Some(inner) => Ok(ParseState { focus_audio_notification_path: Some(inner), ..p }),
            None => Err(ConfigError::Malformed),
        }
    } else if key == "rest_audio_notification_path"@ {
        match spec_quoted_inner(val) {
            Some(inner) => Ok(ParseState { rest_audio_notification_path: Some(inner), ..p }),
            None => Err(ConfigError::Malformed),
        }
    } else {
        Ok(p)
    }
}

/// How one line moves the parse state. Blank lines and `#` comments
/// pass; the single `[comodo]` header must come before any key; a
/// key-value line splits at its first `=`, trims both sides, and reads
/// keys with hyphens as underscores.
pub open spec fn spec_apply_line(p: ParseState, line: Seq<char>) -> Result<
    ParseState,
    ConfigError,
> {
    let t = spec_trim(line);
    if t.len() == 0 || t[0] == '#' {
        Ok(p)
    } else if t[0] == '[' {
        if t == "[comodo]"@ && !p.seen_section {
            Ok(ParseState { seen_section: true, ..p })
        } else {
            Err(ConfigError::Malformed)
        }
    } else if !t.contains('=') {
        Err(ConfigError::Malformed)
    } else if !p.seen_section {
        Err(ConfigError::Malformed)
    } else {
        let e = first_idx(t, '=');
        let key = spec_norm_key(spec_trim(t.subrange(0, e)));
        let val = spec_trim(t.subrange(e + 1, t.len() as int));
        spec_apply_kv(p, key, val)
    }
}

/// Reads a duration value, exactly as `spec_duration_value` states.
fn duration_value(val: &str) -> (r: Option<u64>)
    ensures
        r == spec_duration_value(val@),
{
    match quoted_inner(val) {
        Some(inner) => match from_str_to_duration(inner) {
            Ok(d) => Some(d),
            Err(_) => None,
        },
        None => None,
    }
}

/// Reads a flag value, exactly as `spec_bool_value` states.
fn bool_value(val: &str) -> (r: Option<bool>)
    ensures
        r == spec_bool_value(val@),
{
    if str_eq(val, "true") {
        Some(true)
    } else if str_eq(val, "false") {
        Some(false)
    } else {
        None
    }
}

/// Applies one configuration line to the parse state, exactly as
/// `spec_apply_line` states.
pub fn apply_line(p: ParseAcc, line: &str) -> (r: Result<ParseAcc, ConfigError>)
    ensures
        match r {
            Ok(p2) => spec_apply_line(p@, line@) == Ok::<ParseState, ConfigError>(p2@),
            Err(e) => spec_apply_line(p@, line@) == Err::<ParseState, ConfigError>(e),
        },
{
    let t = trim_str(line);
    let tlen = t.unicode_len();
    if tlen == 0 {
        return Ok(p);
    }
    let c0 = t.get_char(0);
    if c0 == '#' {
        return Ok(p);
    }
    if c0 == '[' {
        if str_eq(t, "[comodo]") && !p.seen_section {
            return Ok(ParseAcc { seen_section: true, ..p });
        } else {
            return Err(ConfigError::Malformed);
        }
    }
    let mut e: usize = 0;
    while e < tlen && s_neq(t.get_char(e), '=')
        invariant
            0 <= e <= tlen == t@.len(),
            forall|k: int| 0 <= k < e ==> t@[k] != '=',
        decreases tlen - e,
    {
        e = e + 1;
    }
    if e == tlen {
        proof {
            assert(!t@.contains('='));
        }
        return Err(ConfigError::Malformed);
    }
    proof {
        assert(t@[e as int] == '=');
        assert(t@.contains('='));
        assert(is_first_idx(t@, '=', e as int));
        lemma_first_idx_exists(t@, '=');
        lemma_first_idx_unique(t@, '=', e as int, first_idx(t@, '='));
    }
    if !p.seen_section {
        return Err(ConfigError::Malformed);
    }
    let key_raw = trim_str(t.substring_char(0, e));
    let val = trim_str(t.substring_char(e + 1, tlen));
    if norm_key_eq(key_raw, "iterations") {
        match parse_decimal(val, 0, val.unicode_len()) {
            Some(v) => {
                if v <= 255 {
                    proof {
                        assert(val@.subrange(0, val@.len() as int) =~= val@);
                    }
                    Ok(ParseAcc { iterations: Some(v as u8), ..p })
                } else {
                    proof {
                        assert(val@.subrange(0, val@.len() as int) =~= val@);
                    }
                    Err(ConfigError::Malformed)
                }
            },
            None => {
                proof {
                    assert(val@.subrange(0, val@.len() as int) =~= val@);
                }
                Err(ConfigError::Malformed)
            },
        }
    } else if norm_key_eq(key_raw, "focus") {
        match duration_value(val) {
            Some(d) => Ok(ParseAcc { focus: Some(d), ..p }),
            None => Err(ConfigError::Malformed),
        }
    } else if norm_key_eq(key_raw, "rest") {
        match duration_value(val) {
            Some(d) => Ok(ParseAcc { rest: Some(d), ..p }),
            None => Err(ConfigError::Malformed),
        }
    } else if norm_key_eq(key_raw, "big_rest") {
        match duration_value(val) {
            Some(d) => Ok(ParseAcc { big_rest: Some(d), ..p }),
            None => Err(ConfigError::Malformed),
        }
    } else if norm_key_eq(key_raw, "popup_notification") {
        match bool_value(val) {
            Some(b) => Ok(ParseAcc { popup_notification: b, ..p }),
            None => Err(ConfigError::Malformed),
        }
    } else if norm_key_eq(key_raw, "sound_notification") {
        match bool_value(val) {
            Some(b) => Ok(ParseAcc { sound_notification: b, ..p }),
            None => Err(ConfigError::Malformed),
        }
    } else if norm_key_eq(key_raw, "focus_notification_banner") {
        match quoted_inner(val) {
            Some(inner) => Ok(ParseAcc { focus_notification_banner: inner.to_owned(), ..p }),
            None => Err(ConfigError::Malformed),
        }
    } else if norm_key_eq(key_raw, "rest_notification_banner") {
        match quoted_inner(val) {
            Some(inner) => Ok(ParseAcc { rest_notification_banner: inner.to_owned(), ..p }),
            None => Err(ConfigError::Malformed),
        }
    } else if norm_key_eq(key_raw, "focus_audio_notification_path") {
        match quoted_inner(val) {
            Some(inner) => Ok(
                ParseAcc { focus_audio_notification_path: Some(inner.to_owned()), ..p },
            ),
            None => Err(ConfigError::Malformed),
        }
    } else if norm_key_eq(key_raw, "rest_audio_notification_path") {
        match quoted_inner(val) {
            Some(inner) => Ok(
                ParseAcc { rest_audio_notification_path: Some(inner.to_owned()), ..p },
            ),
            None => Err(ConfigError::Malformed),
        }
    } else {
        Ok(p)
    }
}

/// Parses a `minutes:seconds` duration text into whole seconds.
///
/// Succeeds exactly on texts with one colon between two non-empty
/// digit runs whose total second count fits a second counter; every
/// other text is malformed.
pub fn from_str_to_duration(s: &str) -> (r: Result<u64, ConfigError>)
    ensures
        r is Ok <==> spec_mmss_valid(s@) && spec_mmss_val(s@) <= u64::MAX,
        r matches Ok(v) ==> v == spec_mmss_val(s@),
        r is Err ==> r == Err::<u64, ConfigError>(ConfigError::Malformed),
{
    let len = s.unicode_len();
    let mut i: usize = 0;
    while i < len && s.get_char(i) != ':'
        invariant
            0 <= i <= len == s@.len(),
            forall|k: int| 0 <= k < i ==> s@[k] != ':',
        decreases len - i,
    {
        i = i + 1;
    }
    if i == len {
        proof {
            assert forall|j: int| !mmss_split_at(s@, j) by {
                if 1 <= j && j + 1 < s@.len() {
                    assert(s@[j] != ':');
                }
            }
        }
        return Err(ConfigError::Malformed);
    }
    assert(s@[i as int] == ':');
    if i == 0 || i + 1 >= len {
        proof {
            assert forall|j: int| !mmss_split_at(s@, j) by {
                if mmss_split_at(s@, j) {
                    if j < i {
                        assert(s@[j] != ':');
                    } else if j > i {
                        assert(s@.subrange(0, j)[i as int] == s@[i as int]);
                        assert(is_digit(s@[i as int]));
                    }
                }
            }
        }
        return Err(ConfigError::Malformed);
    }
    proof {
        assert forall|j: int| mmss_split_at(s@, j) implies j == i as int by {
            if j < i {
                assert(s@[j] != ':');
            } else if j > i {
                assert(s@.subrange(0, j)[i as int] == s@[i as int]);
                assert(is_digit(s@[i as int]));
            }
        }
    }
    let minutes = match parse_decimal(s, 0, i) {
        Some(v) => v,
        None => {
            proof {
                if spec_mmss_valid(s@) {
                    let j = choose|j: int| mmss_split_at(s@, j);
                    assert(j == i as int);
                    let mn = s@.subrange(0, i as int);
                    let sc = s@.subrange(i as int + 1, s@.len() as int);
                    assert(dec_val(mn) > u64::MAX);
                    lemma_dec_val_nonneg(sc);
                    lemma_dec_val_nonneg(mn);
                }
            }
            return Err(ConfigError::Malformed);
        },
    };
    let seconds = match parse_decimal(s, i + 1, len) {
        Some(v) => v,
        None => {
            proof {
                if spec_mmss_valid(s@) {
                    let j = choose|j: int| mmss_split_at(s@, j);
                    assert(j == i as int);
                    let mn = s@.subrange(0, i as int);
                    let sc = s@.subrange(i as int + 1, s@.len() as int);
                    assert(dec_val(sc) > u64::MAX);
                    lemma_dec_val_nonneg(mn);
                }
            }
            return Err(ConfigError::Malformed);
        },
    };
    proof {
        assert(mmss_split_at(s@, i as int));
        let j = choose|j: int| mmss_split_at(s@, j);
        assert(j == i as int);
    }
    let scaled = match minutes.checked_mul(60) {
        Some(v) => v,
        None => {
            proof {
                lemma_dec_val_nonneg(s@.subrange(i as int + 1, s@.len() as int));
            }
            return Err(ConfigError::Malformed);
        },
    };
    match scaled.checked_add(seconds) {
        Some(total) => Ok(total),
        None => {
            Err(ConfigError::Malformed)
        },
    }
}

/// How a whole sequence of lines moves the parse state, first line
/// first, stopping at the first malformed line.
pub open spec fn spec_fold_lines(p: ParseState, ls: Seq<Seq<char>>) -> Result<
    ParseState,
    ConfigError,
>
    decreases ls.len(),
{
    if ls.len() == 0 {
        Ok(p)
    } else {
        match spec_apply_line(p, ls[0]) {
            Ok(p2) => spec_fold_lines(p2, ls.subrange(1, ls.len() as int)),
            Err(e) => Err(e),
        }
    }
}

/// The table a finished parse yields: every required field — the
/// iteration count and the three durations — must have been seen.
pub open spec fn spec_finalize(p: ParseState) -> Result<ComodoModel, ConfigError> {
    if p.iterations is Some && p.focus is Some && p.rest is Some && p.big_rest is Some {
        Ok(
            ComodoModel {
                iterations: p.iterations.unwrap(),
                focus: p.focus.unwrap(),
                rest: p.rest.unwrap(),
                big_rest: p.big_rest.unwrap(),
                popup_notification: p.popup_notification,
                sound_notification: p.sound_notification,
                focus_notification_banner: p.focus_notification_banner,
                rest_notification_banner: p.rest_notification_banner,
                focus_audio_notification_path: p.focus_audio_notification_path,
                rest_audio_notification_path: p.rest_audio_notification_path,
            },
        )
    } else {
        Err(ConfigError::Malformed)
    }
}

/// What a configuration text means: its lines folded over the initial
/// state, then closed out.
pub open spec fn spec_parse_config(s: Seq<char>) -> Result<ComodoModel, ConfigError> {
    match spec_fold_lines(init_parse_state(), spec_lines(s)) {
        Ok(p) => spec_finalize(p),
        Err(e) => Err(e),
    }
}

impl Config {
    /// Parses a configuration text, exactly as `spec_parse_config`
    /// states: line by line over the defaults, requiring the
    /// `[comodo]` header and the iteration count and three durations.
    pub fn from_stream_string(input: String) -> (r: Result<Config, ConfigError>)
        ensures
            match r {
                Ok(c) => spec_parse_config(input@) == Ok::<ComodoModel, ConfigError>(c@),
                Err(e) => spec_parse_config(input@) == Err::<ComodoModel, ConfigError>(e),
            },
    {
        let lines = split_lines(input.as_str());
        let ghost lv = spec_lines(input@);
        let mut p = ParseAcc {
            seen_section: false,
            iterations: None,
            focus: None,
            rest: None,
            big_rest: None,
            popup_notification: true,
            sound_notification: false,
            focus_notification_banner: ComodoDefaults::focus_notification_banner(),
            rest_notification_banner: ComodoDefaults::rest_notification_banner(),
            focus_audio_notification_path: None,
            rest_audio_notification_path: None,
        };
        proof {
            assert(p@ =~= init_parse_state());
            assert(lv.subrange(0, lv.len() as int) =~~= lv);
        }
        let mut i: usize = 0;
        while i < lines.len()
            invariant
                0 <= i <= lines.len(),
                lv == spec_lines(input@),
                lines@.len() == lv.len(),
                forall|k: int| 0 <= k < lines@.len() ==> #[trigger] lines@[k]@ == lv[k],
                spec_fold_lines(init_parse_state(), lv) == spec_fold_lines(
                    p@,
                    lv.subrange(i as int, lv.len() as int),
                ),
            decreases lines.len() - i,
        {
            let ghost tail = lv.subrange(i as int, lv.len() as int);
            proof {
                assert(tail[0] == lv[i as int]);
                assert(tail.subrange(1, tail.len() as int) =~~= lv.subrange(
                    i + 1,
                    lv.len() as int,
                ));
            }
            let ghost pv = p@;
            p = match apply_line(p, lines[i].as_str()) {
                Ok(p2) => p2,
                Err(e) => {
                    proof {
                        assert(spec_fold_lines(pv, tail) == Err::<ParseState, ConfigError>(e));
                        assert(spec_parse_config(input@) == Err::<ComodoModel, ConfigError>(e));
                    }
                    return Err(e);
                },
            };
            proof {
                assert(spec_fold_lines(pv, tail) == spec_fold_lines(
                    p@,
                    tail.subrange(1, tail.len() as int),
                ));
            }
            i = i + 1;
        }
        proof {
            assert(lv.subrange(lv.len() as int, lv.len() as int) =~~= Seq::<Seq<char>>::empty());
        }
        match (p.iterations, p.focus, p.rest, p.big_rest) {
            (Some(iterations), Some(focus), Some(rest), Some(big_rest)) => {
                let comodo = Comodo {
                    iterations,
                    focus,
                    rest,
                    big_rest,
                    popup_notification: p.popup_notification,
                    sound_notification: p.sound_notification,
                    focus_notification_banner: p.focus_notification_banner,
                    rest_notification_banner: p.rest_notification_banner,
                    focus_audio_notification_path: p.focus_audio_notification_path,
                    rest_audio_notification_path: p.rest_audio_notification_path,
                };
                Ok(Config { comodo })
            },
            _ => Err(ConfigError::Malformed),
        }
    }
}

impl Comodo {
    /// The session the scheduler runs for this table: the same counts
    /// and flags, banner and path text carried over as their UTF-8
    /// bytes, and a missing audio path as an empty one.
    pub fn to_session_config(&self) -> (r: SessionConfig)
        ensures
            r@.iterations == self@.iterations,
            r@.focus == self@.focus,
            r@.rest == self@.rest,
            r@.popup_notification == self@.popup_notification,
            r@.sound_notification == self@.sound_notification,
            r@.focus_banner == vstd::utf8::encode_utf8(self@.focus_notification_banner),
            r@.rest_banner == vstd::utf8::encode_utf8(self@.rest_notification_banner),
            r@.focus_audio_path == (match self@.focus_audio_notification_path {
                Some(path) => vstd::utf8::encode_utf8(path),
                None => Seq::<u8>::empty(),
            }),
            r@.rest_audio_path == (match self@.rest_audio_notification_path {
                Some(path) => vstd::utf8::encode_utf8(path),
                None => Seq::<u8>::empty(),
            }),
    {
        let focus_audio_path = match self.focus_audio_notification_path {
            Some(ref path) => path.as_str().as_bytes_vec(),
            None => Vec::new(),
        };
        let rest_audio_path = match self.rest_audio_notification_path {
            Some(ref path) => path.as_str().as_bytes_vec(),
            None => Vec::new(),
        };
        SessionConfig {
            iterations: self.iterations,
            focus: self.focus,
            rest: self.rest,
            popup_notification: self.popup_notification,
            sound_notification: self.sound_notification,
            focus_banner: self.focus_notification_banner.as_str().as_bytes_vec(),
            rest_banner: self.rest_notification_banner.as_str().as_bytes_vec(),
            focus_audio_path,
            rest_audio_path,
        }
    }
}

} // verus!
