use vstd::prelude::*;
use vstd::string::StrSliceExecFns;

use crate::strutil::str_eq;

verus! {

/// The position of the first occurrence of `c` in `s`.
pub open spec fn find_char(s: Seq<char>, c: char) -> Option<int>
    decreases s.len(),
{
    if s.len() == 0 {
        None
    } else if s[0] == c {
        Some(0int)
    } else {
        match find_char(s.drop_first(), c) {
            Some(i) => Some(i + 1),
            None => None,
        }
    }
}

/// `find_char` names the first occurrence: the character stands there and
/// nowhere earlier; a miss means the character does not occur at all.
pub proof fn lemma_find_char(s: Seq<char>, c: char)
    ensures
        match find_char(s, c) {
            Some(i) => 0 <= i < s.len() && s[i] == c && (forall|k: int| 0 <= k < i ==> s[k] != c),
            None => forall|k: int| 0 <= k < s.len() ==> s[k] != c,
        },
    decreases s.len(),
{
    if s.len() != 0 && s[0] != c {
        lemma_find_char(s.drop_first(), c);
        match find_char(s.drop_first(), c) {
            Some(i0) => {
                assert(find_char(s, c) == Some(i0 + 1));
                assert forall|k: int| 0 <= k < i0 + 1 implies s[k] != c by {
                    if k > 0 {
                        assert(s.drop_first()[k - 1] == s[k]);
                        assert(s.drop_first()[k - 1] != c);
                    }
                }
            },
            None => {
                assert forall|k: int| 0 <= k < s.len() implies s[k] != c by {
                    if k > 0 {
                        assert(s.drop_first()[k - 1] == s[k]);
                        assert(s.drop_first()[k - 1] != c);
                    }
                }
            },
        }
    }
}

/// A hit of `find_char` is the same thing as containment.
pub proof fn lemma_find_char_contains(s: Seq<char>, c: char)
    ensures
        (find_char(s, c) is Some) <==> s.contains(c),
{
    lemma_find_char(s, c);
    match find_char(s, c) {
        Some(i) => {
            assert(s[i] == c);
        },
        None => {
            if s.contains(c) {
                let i = choose|i: int| 0 <= i < s.len() && s[i] == c;
                assert(s[i] != c);
            }
        },
    }
}

/// Finds the first occurrence of `c`, by position.
fn find_char_at(s: &str, c: char) -> (r: Option<usize>)
    ensures
        match r {
            Some(i) => find_char(s@, c) == Some(i as int),
            None => find_char(s@, c) is None,
        },
{
    let n = s.unicode_len();
    let mut i: usize = 0;
    while i < n
        invariant
            n == s@.len(),
            i <= n,
            forall|k: int| 0 <= k < i ==> s@[k] != c,
        decreases n - i,
    {
        if s.get_char(i) == c {
            proof {
                lemma_find_char(s@, c);
            }
            return Some(i);
        }
        i += 1;
    }
    proof {
        lemma_find_char(s@, c);
    }
    None
}

/// A word character: a letter, a digit or the underscore.
pub open spec fn is_word_char(c: char) -> bool {
    ('a' <= c && c <= 'z') || ('A' <= c && c <= 'Z') || ('0' <= c && c <= '9') || c == '_'
}

fn is_word_char_exec(c: char) -> (r: bool)
    ensures
        r == is_word_char(c),
{
    let u = c as u32;
    (97 <= u && u <= 122) || (65 <= u && u <= 90) || (48 <= u && u <= 57) || u == 95
}

/// A passcode: at least five word characters and nothing else.
pub open spec fn valid_passcode_spec(s: Seq<char>) -> bool {
    s.len() >= 5 && (forall|k: int| 0 <= k < s.len() ==> is_word_char(#[trigger] s[k]))
}

pub fn valid_passcode(s: &str) -> (r: bool)
    ensures
        r == valid_passcode_spec(s@),
{
    let n = s.unicode_len();
    if n < 5 {
        return false;
    }
    let mut i: usize = 0;
    while i < n
        invariant
            n == s@.len(),
            i <= n,
            forall|k: int| 0 <= k < i ==> is_word_char(#[trigger] s@[k]),
        decreases n - i,
    {
        if !is_word_char_exec(s.get_char(i)) {
            return false;
        }
        i += 1;
    }
    true
}

/// A credential codename: at least three word characters and nothing else.
/// The agent-number form — a fixed prefix followed by digits — is a special
/// case of this shape, so no separate test is needed.
pub open spec fn valid_codename_spec(s: Seq<char>) -> bool {
    s.len() >= 3 && (forall|k: int| 0 <= k < s.len() ==> is_word_char(#[trigger] s[k]))
}

pub fn valid_codename(s: &str) -> (r: bool)
    ensures
        r == valid_codename_spec(s@),
{
    let n = s.unicode_len();
    if n < 3 {
        return false;
    }
    let mut i: usize = 0;
    while i < n
        invariant
            n == s@.len(),
            i <= n,
            forall|k: int| 0 <= k < i ==> is_word_char(#[trigger] s@[k]),
        decreases n - i,
    {
        if !is_word_char_exec(s.get_char(i)) {
            return false;
        }
        i += 1;
    }
    true
}

pub open spec fn is_digit(c: char) -> bool {
    '0' <= c && c <= '9'
}

/// The numeric value of a run of decimal digits.
pub open spec fn digits_value(s: Seq<char>) -> int
    decreases s.len(),
{
    if s.len() == 0 {
        0
    } else {
        digits_value(s.drop_last()) * 10 + (s.last() as int - 48)
    }
}

/// The digit run of a signed decimal: what follows an optional sign.
pub open spec fn digit_run(s: Seq<char>) -> Seq<char> {
    if s.len() > 0 && (s[0] == '-' || s[0] == '+') {
        s.drop_first()
    } else {
        s
    }
}

/// A signed decimal numeral: an optional sign, then only digits, at least
/// one.
pub open spec fn is_signed_decimal(s: Seq<char>) -> bool {
    digit_run(s).len() > 0 && (forall|k: int|
        0 <= k < digit_run(s).len() ==> is_digit(#[trigger] digit_run(s)[k]))
}

/// The value a signed decimal numeral denotes.
pub open spec fn signed_decimal_value(s: Seq<char>) -> int {
    if s.len() > 0 && s[0] == '-' {
        -digits_value(digit_run(s))
    } else {
        digits_value(digit_run(s))
    }
}

proof fn lemma_digits_value_nonneg(s: Seq<char>)
    requires
        forall|k: int| 0 <= k < s.len() ==> is_digit(#[trigger] s[k]),
    ensures
        digits_value(s) >= 0,
    decreases s.len(),
{
    if s.len() != 0 {
        assert forall|k: int| 0 <= k < s.drop_last().len() implies is_digit(
            #[trigger] s.drop_last()[k],
        ) by {
            assert(s.drop_last()[k] == s[k]);
        }
        lemma_digits_value_nonneg(s.drop_last());
    }
}

/// Reading more digits can only grow the value.
proof fn lemma_digits_value_extend(s: Seq<char>, i: int)
    requires
        0 <= i <= s.len(),
        forall|k: int| 0 <= k < s.len() ==> is_digit(#[trigger] s[k]),
    ensures
        digits_value(s) >= digits_value(s.take(i)),
    decreases s.len() - i,
{
    if i < s.len() {
        assert(s.take(i + 1).drop_last() =~= s.take(i));
        assert(s.take(i + 1).last() == s[i]);
        assert forall|k: int| 0 <= k < s.take(i).len() implies is_digit(
            #[trigger] s.take(i)[k],
        ) by {
            assert(s.take(i)[k] == s[k]);
        }
        lemma_digits_value_nonneg(s.take(i));
        assert(digits_value(s.take(i + 1)) >= digits_value(s.take(i)));
        lemma_digits_value_extend(s, i + 1);
    } else {
        assert(s.take(i) =~= s);
    }
}

/// The whitespace characters that separate tokens.
pub open spec fn is_space(c: char) -> bool {
    c == ' ' || c == '\t' || c == '\n' || c == '\r'
}

fn is_space_exec(c: char) -> (r: bool)
    ensures
        r == is_space(c),
{
    c == ' ' || c == '\t' || c == '\n' || c == '\r'
}

/// The tokens of a scan of `s` that carries the token built so far.
pub open spec fn split_ws_from(s: Seq<char>, cur: Seq<char>) -> Seq<Seq<char>>
    decreases s.len(),
{
    if s.len() == 0 {
        if cur.len() == 0 {
            Seq::empty()
        } else {
            seq![cur]
        }
    } else if is_space(s[0]) {
        if cur.len() == 0 {
            split_ws_from(s.drop_first(), Seq::empty())
        } else {
            seq![cur] + split_ws_from(s.drop_first(), Seq::empty())
        }
    } else {
        split_ws_from(s.drop_first(), cur.push(s[0]))
    }
}

/// The whitespace-separated tokens of `s`, in order.
pub open spec fn tokens_of(s: Seq<char>) -> Seq<Seq<char>> {
    split_ws_from(s, Seq::empty())
}

/// The views of a vector of string slices.
pub open spec fn views_of_strs(toks: Seq<&str>) -> Seq<Seq<char>> {
    toks.map_values(|t: &str| t@)
}

/// Splits on whitespace; each token is a slice of the input.
pub fn split_whitespace_tokens<'a>(s: &'a str) -> (r: Vec<&'a str>)
    ensures
        views_of_strs(r@) == tokens_of(s@),
{
    let n = s.unicode_len();
    let mut out: Vec<&'a str> = Vec::new();
    let mut i: usize = 0;
    let mut ts: usize = 0;
    let mut in_token: bool = false;
    proof {
        assert(views_of_strs(out@) =~= Seq::<Seq<char>>::empty());
        assert(s@.skip(0) =~= s@);
        assert(Seq::<Seq<char>>::empty() + split_ws_from(s@, Seq::<char>::empty())
            =~= tokens_of(s@));
    }
    while i < n
        invariant
            n == s@.len(),
            i <= n,
            in_token ==> ts < i,
            !in_token ==> tokens_of(s@) == views_of_strs(out@) + split_ws_from(
                s@.skip(i as int),
                Seq::<char>::empty(),
            ),
            in_token ==> tokens_of(s@) == views_of_strs(out@) + split_ws_from(
                s@.skip(i as int),
                s@.subrange(ts as int, i as int),
            ),
        decreases n - i,
    {
        let c = s.get_char(i);
        let sp = is_space_exec(c);
        proof {
            assert(s@.skip(i as int).drop_first() =~= s@.skip(i + 1));
            assert(s@.skip(i as int)[0] == s@[i as int]);
        }
        if in_token {
            if sp {
                let tok = s.substring_char(ts, i);
                let ghost out0 = out@;
                out.push(tok);
                proof {
                    let cur = s@.subrange(ts as int, i as int);
                    assert(cur.len() > 0);
                    assert(split_ws_from(s@.skip(i as int), cur) == seq![cur] + split_ws_from(
                        s@.skip(i + 1),
                        Seq::<char>::empty(),
                    ));
                    assert(views_of_strs(out@) =~= views_of_strs(out0).push(tok@));
                    assert(tok@ == cur);
                    assert(views_of_strs(out0) + (seq![cur] + split_ws_from(
                        s@.skip(i + 1),
                        Seq::<char>::empty(),
                    )) =~= views_of_strs(out@) + split_ws_from(
                        s@.skip(i + 1),
                        Seq::<char>::empty(),
                    ));
                }
                in_token = false;
            } else {
                proof {
                    assert(s@.subrange(ts as int, i as int).push(s@[i as int]) =~= s@.subrange(
                        ts as int,
                        i + 1,
                    ));
                }
            }
        } else {
            if !sp {
                ts = i;
                proof {
                    assert(Seq::<char>::empty().push(s@[i as int]) =~= s@.subrange(
                        i as int,
                        i + 1,
                    ));
                }
                in_token = true;
            }
        }
        i += 1;
    }
    if in_token {
        let tok = s.substring_char(ts, n);
        let ghost out0 = out@;
        out.push(tok);
        proof {
            let cur = s@.subrange(ts as int, n as int);
            assert(s@.skip(n as int).len() == 0);
            assert(cur.len() > 0);
            assert(split_ws_from(s@.skip(n as int), cur) =~= seq![cur]);
            assert(views_of_strs(out@) =~= views_of_strs(out0).push(cur));
            assert(views_of_strs(out0) + seq![cur] =~= views_of_strs(out@));
        }
    } else {
        proof {
            assert(s@.skip(n as int).len() == 0);
            assert(split_ws_from(s@.skip(n as int), Seq::<char>::empty()) =~= Seq::<
                Seq<char>,
            >::empty());
            assert(views_of_strs(out@) + Seq::<Seq<char>>::empty() =~= views_of_strs(out@));
        }
    }
    out
}

/// Callback data of the shape `head action target`, split on its first two
/// spaces.
#[derive(Debug)]
pub struct ReadableCallbackQuery<'a> {
    pub head: &'a str,
    pub action: &'a str,
    pub target: &'a str,
}

impl<'a> ReadableCallbackQuery<'a> {
    /// Splits the data on its first two spaces; data with fewer than two
    /// spaces has no such shape.
    pub fn new(data: &'a str) -> (r: Option<ReadableCallbackQuery<'a>>)
        ensures
            match find_char(data@, ' ') {
                Option::None => r is None,
                Option::Some(i) => match find_char(data@.skip(i + 1), ' ') {
                    Option::None => r is None,
                    Option::Some(j) => match r {
                        Option::Some(q) => q.head@ == data@.take(i) && q.action@ == data@.skip(
                            i + 1,
                        ).take(j) && q.target@ == data@.skip(i + 1).skip(j + 1),
                        Option::None => false,
                    },
                },
            },
    {
        let n = data.unicode_len();
        let i = match find_char_at(data, ' ') {
            Some(i) => i,
            None => {
                return None;
            },
        };
        proof {
            lemma_find_char(data@, ' ');
        }
        let right = data.substring_char(i + 1, n);
        proof {
            assert(right@ =~= data@.skip(i + 1));
        }
        let j = match find_char_at(right, ' ') {
            Some(j) => j,
            None => {
                return None;
            },
        };
        proof {
            lemma_find_char(right@, ' ');
        }
        let head = data.substring_char(0, i);
        let rn = right.unicode_len();
        let action = right.substring_char(0, j);
        let target = right.substring_char(j + 1, rn);
        proof {
            assert(head@ =~= data@.take(i as int));
            assert(action@ =~= data@.skip(i + 1).take(j as int));
            assert(target@ =~= data@.skip(i + 1).skip(j + 1));
        }
        Some(ReadableCallbackQuery { head, action, target })
    }

    /// The target field read as a signed decimal number, when the whole
    /// field is one and its value fits the machine integer.
    pub fn target_i64(&self) -> (r: Option<i64>)
        ensures
            match r {
                Option::Some(v) => is_signed_decimal(self.target@) && v as int
                    == signed_decimal_value(self.target@),
                Option::None => !is_signed_decimal(self.target@) || signed_decimal_value(
                    self.target@,
                ) < -0x8000_0000_0000_0000 || signed_decimal_value(self.target@)
                    > 0x7fff_ffff_ffff_ffff,
            },
    {
        let s = self.target;
        let n = s.unicode_len();
        if n == 0 {
            return None;
        }
        let c0 = s.get_char(0);
        let neg = c0 == '-';
        let start: usize = if c0 == '-' || c0 == '+' {
            1
        } else {
            0
        };
        let ghost run = digit_run(s@);
        proof {
            assert(run =~= s@.skip(start as int));
        }
        if n == start {
            return None;
        }
        let mut acc: u128 = 0;
        let mut i: usize = start;
        proof {
            assert(run.take(0) =~= Seq::<char>::empty());
        }
        while i < n
            invariant
                s == self.target,
                n == s@.len(),
                start <= i <= n,
                start <= 1,
                start == 1 ==> (s@[0] == '-' || s@[0] == '+'),
                start == 0 ==> s@.len() > 0 && !(s@[0] == '-' || s@[0] == '+'),
                run == digit_run(s@),
                run == s@.skip(start as int),
                forall|k: int| 0 <= k < i - start ==> is_digit(#[trigger] run[k]),
                acc == digits_value(run.take(i - start)),
                acc <= 0x8000_0000_0000_0000u128,
            decreases n - i,
        {
            let c = s.get_char(i);
            let u = c as u32;
            if !(48 <= u && u <= 57) {
                proof {
                    assert(run[i - start] == s@[i as int]);
                    assert(!is_digit(run[i - start]));
                }
                return None;
            }
            let d: u128 = (u - 48) as u128;
            let ghost m = i - start;
            acc = acc * 10 + d;
            proof {
                assert(run.take(m + 1).drop_last() =~= run.take(m));
                assert(run.take(m + 1).last() == run[m]);
                assert(run[m] == s@[i as int]);
                assert(run[m] as int - 48 == d as int);
                assert(acc == digits_value(run.take(m + 1)));
            }
            i += 1;
            if acc > 0x8000_0000_0000_0000u128 {
                proof {
                    if is_signed_decimal(s@) {
                        lemma_digits_value_extend(run, i - start);
                        assert(run.take(i - start) =~= run.take(m + 1));
                        assert(digits_value(run) >= acc);
                        if s@[0] == '-' {
                            assert(signed_decimal_value(s@) == -digits_value(run));
                        } else {
                            assert(signed_decimal_value(s@) == digits_value(run));
                        }
                    }
                }
                return None;
            }
        }
        proof {
            assert(run.take(n - start) =~= run);
            assert(is_signed_decimal(s@));
        }
        if neg {
            if acc == 0x8000_0000_0000_0000u128 {
                Some(-0x8000_0000_0000_0000i64)
            } else {
                Some(-(acc as i64))
            }
        } else {
            if acc > 0x7fff_ffff_ffff_ffffu128 {
                proof {
                    assert(acc == digits_value(run));
                    assert(signed_decimal_value(s@) == digits_value(run));
                }
                return None;
            }
            Some(acc as i64)
        }
    }
}

/// The capability an approval action names: full access, cookie access or
/// message access; an unrecognized action falls back to cookie access.
pub open spec fn approve_action_level_spec(action: Seq<char>) -> crate::access::AccessLevel {
    if action == "all"@ {
        crate::access::AccessLevel::All
    } else if action == "cookie"@ {
        crate::access::AccessLevel::Cookie
    } else if action == "message"@ {
        crate::access::AccessLevel::Send
    } else {
        crate::access::AccessLevel::Cookie
    }
}

pub fn approve_action_level(action: &str) -> (r: crate::access::AccessLevel)
    ensures
        r == approve_action_level_spec(action@),
{
    if str_eq(action, "all") {
        crate::access::AccessLevel::All
    } else if str_eq(action, "cookie") {
        crate::access::AccessLevel::Cookie
    } else if str_eq(action, "message") {
        crate::access::AccessLevel::Send
    } else {
        crate::access::AccessLevel::Cookie
    }
}

/// Mathematical view of a parsed cookie command.
pub enum CookieOpsV {
    Toggle(Seq<char>, bool),
    Modify(Seq<char>, Seq<char>, Seq<char>),
    Query(Option<Seq<char>>),
}

/// A parsed cookie command: toggle a credential, modify (or add) one, or
/// query.
#[derive(Debug)]
pub enum CookieOps<'a> {
    Toggle(&'a str, bool),
    Modify(&'a str, &'a str, &'a str),
    Query(Option<&'a str>),
}

impl<'a> View for CookieOps<'a> {
    type V = CookieOpsV;

    open spec fn view(&self) -> CookieOpsV {
        match self {
            CookieOps::Toggle(id, en) => CookieOpsV::Toggle(id@, *en),
            CookieOps::Modify(id, c, s) => CookieOpsV::Modify(id@, c@, s@),
            CookieOps::Query(t) => CookieOpsV::Query(
                match t {
                    Option::Some(x) => Option::Some(x@),
                    Option::None => Option::None,
                },
            ),
        }
    }
}

/// Why a cookie command line was refused.
#[derive(Clone, Copy, Debug, PartialEq, Eq, Structural)]
pub enum OpsParseError {
    MissingSpace,
    BadArguments,
    UnexpectedEquals,
}

/// One trailing semicolon stripped.
pub open spec fn strip_semi(v: Seq<char>) -> Seq<char> {
    if v.len() > 0 && v.last() == ';' {
        v.drop_last()
    } else {
        v
    }
}

/// The `key=value` scan over the remaining tokens: a token with an equals
/// sign assigns its value — one trailing semicolon stripped — to the field
/// its key names, and the scan stops as soon as both fields are non-empty.
pub open spec fn scan_eq_tokens(
    toks: Seq<Seq<char>>,
    csrf: Seq<char>,
    session: Seq<char>,
) -> Option<(Seq<char>, Seq<char>)>
    decreases toks.len(),
{
    if toks.len() == 0 {
        None
    } else {
        match find_char(toks[0], '=') {
            Some(i) => {
                let left = toks[0].take(i);
                let right = strip_semi(toks[0].skip(i + 1));
                let csrf2 = if left == "csrftoken"@ {
                    right
                } else {
                    csrf
                };
                let session2 = if left == "sessionid"@ {
                    right
                } else {
                    session
                };
                if csrf2.len() > 0 && session2.len() > 0 {
                    Some((csrf2, session2))
                } else {
                    scan_eq_tokens(toks.drop_first(), csrf2, session2)
                }
            },
            None => scan_eq_tokens(toks.drop_first(), csrf, session),
        }
    }
}

/// What a cookie command line parses to: the operation named by the first
/// token, with its arguments, or the reason it is refused.
pub open spec fn parse_cookie_ops(s: Seq<char>) -> Result<CookieOpsV, OpsParseError> {
    if !s.contains(' ') && s != "query"@ {
        Err(OpsParseError::MissingSpace)
    } else {
        let g = tokens_of(s);
        if g.len() == 0 {
            Err(OpsParseError::BadArguments)
        } else if g[0] == "enable"@ || g[0] == "disable"@ {
            if g.len() > 1 {
                Ok(CookieOpsV::Toggle(g[1], g[0] == "enable"@))
            } else {
                Err(OpsParseError::BadArguments)
            }
        } else if g[0] == "modify"@ || g[0] == "add"@ {
            if g.len() > 3 {
                if s.contains('=') {
                    match scan_eq_tokens(g, Seq::empty(), Seq::empty()) {
                        Some(p) => Ok(CookieOpsV::Modify(g[1], p.0, p.1)),
                        None => Err(OpsParseError::UnexpectedEquals),
                    }
                } else {
                    Ok(CookieOpsV::Modify(g[1], g[2], g[3]))
                }
            } else {
                Err(OpsParseError::BadArguments)
            }
        } else if g[0] == "query"@ {
            Ok(
                CookieOpsV::Query(
                    if g.len() > 1 {
                        Some(g[1])
                    } else {
                        None
                    },
                ),
            )
        } else {
            Err(OpsParseError::BadArguments)
        }
    }
}

impl<'a> CookieOps<'a> {
    /// Pulls the two named fields out of a raw `key=value` cookie line.
    fn try_parse(input: &'a str) -> (r: Option<(&'a str, &'a str)>)
        ensures
            match r {
                Option::Some(p) => scan_eq_tokens(
                    tokens_of(input@),
                    Seq::<char>::empty(),
                    Seq::<char>::empty(),
                ) == Some((p.0@, p.1@)),
                Option::None => scan_eq_tokens(
                    tokens_of(input@),
                    Seq::<char>::empty(),
                    Seq::<char>::empty(),
                ) is None,
            },
    {
        let toks = split_whitespace_tokens(input);
        let mut csrf: &'a str = "";
        let mut session: &'a str = "";
        proof {
            reveal_strlit("");
            assert(""@ =~= Seq::<char>::empty());
            assert(views_of_strs(toks@).skip(0) =~= views_of_strs(toks@));
        }
        let mut k: usize = 0;
        while k < toks.len()
            invariant
                views_of_strs(toks@) == tokens_of(input@),
                k <= toks@.len(),
                scan_eq_tokens(tokens_of(input@), Seq::<char>::empty(), Seq::<char>::empty())
                    == scan_eq_tokens(views_of_strs(toks@).skip(k as int), csrf@, session@),
            decreases toks@.len() - k,
        {
            let t: &str = toks[k];
            proof {
                assert(views_of_strs(toks@).skip(k as int).drop_first() =~= views_of_strs(
                    toks@,
                ).skip(k + 1));
                assert(views_of_strs(toks@).skip(k as int)[0] == t@);
            }
            match find_char_at(t, '=') {
                Some(p) => {
                    let tn = t.unicode_len();
                    proof {
                        lemma_find_char(t@, '=');
                    }
                    let left = t.substring_char(0, p);
                    let right_full = t.substring_char(p + 1, tn);
                    let rn = right_full.unicode_len();
                    let right: &'a str = if rn > 0 && right_full.get_char(rn - 1) == ';' {
                        right_full.substring_char(0, rn - 1)
                    } else {
                        right_full
                    };
                    proof {
                        assert(left@ =~= t@.take(p as int));
                        assert(right_full@ =~= t@.skip(p + 1));
                        if right_full@.len() > 0 && right_full@.last() == ';' {
                            assert(right@ =~= right_full@.drop_last());
                        }
                        assert(right@ == strip_semi(t@.skip(p + 1)));
                    }
                    if str_eq(left, "csrftoken") {
                        csrf = right;
                    }
                    if str_eq(left, "sessionid") {
                        session = right;
                    }
                    if !csrf.is_empty() && !session.is_empty() {
                        return Some((csrf, session));
                    }
                },
                None => {},
            }
            k += 1;
        }
        proof {
            assert(views_of_strs(toks@).skip(toks@.len() as int).len() == 0);
        }
        None
    }

    /// Parses a cookie command line into its operation, mirroring the
    /// grammar exactly: the refusal reasons are part of the contract.
    pub fn try_from(value: &'a str) -> (r: Result<CookieOps<'a>, OpsParseError>)
        ensures
            match r {
                Result::Ok(ops) => parse_cookie_ops(value@) == Result::<
                    CookieOpsV,
                    OpsParseError,
                >::Ok(ops@),
                Result::Err(e) => parse_cookie_ops(value@) == Result::<
                    CookieOpsV,
                    OpsParseError,
                >::Err(e),
            },
    {
        let has_space = match find_char_at(value, ' ') {
            Some(_) => true,
            None => false,
        };
        proof {
            lemma_find_char_contains(value@, ' ');
        }
        if !has_space && !str_eq(value, "query") {
            return Err(OpsParseError::MissingSpace);
        }
        let g = split_whitespace_tokens(value);
        if g.len() == 0 {
            return Err(OpsParseError::BadArguments);
        }
        let g0: &str = g[0];
        let is_enable = str_eq(g0, "enable");
        if is_enable || str_eq(g0, "disable") {
            if g.len() > 1 {
                return Ok(CookieOps::Toggle(g[1], is_enable));
            }
            return Err(OpsParseError::BadArguments);
        }
        if str_eq(g0, "modify") || str_eq(g0, "add") {
            if g.len() > 3 {
                let has_eq = match find_char_at(value, '=') {
                    Some(_) => true,
                    None => false,
                };
                proof {
                    lemma_find_char_contains(value@, '=');
                }
                if has_eq {
                    match Self::try_parse(value) {
                        Some(p) => {
                            return Ok(CookieOps::Modify(g[1], p.0, p.1));
                        },
                        None => {
                            return Err(OpsParseError::UnexpectedEquals);
                        },
                    }
                }
                return Ok(CookieOps::Modify(g[1], g[2], g[3]));
            }
            return Err(OpsParseError::BadArguments);
        }
        if str_eq(g0, "query") {
            if g.len() > 1 {
                return Ok(CookieOps::Query(Some(g[1])));
            }
            return Ok(CookieOps::Query(None));
        }
        Err(OpsParseError::BadArguments)
    }
}

} // verus!
