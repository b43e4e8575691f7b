//! Parsing and construction of test-harness message envelopes.
//!
//! When the engine runs against a shared transport, several concurrent test
//! runs and several simulated participants share one channel. Outbound
//! messages are prefixed with `test-<run>-<name>.<user> ` and inbound
//! messages are filtered back through the same envelope. A run or user number
//! too large for sixty-four bits does not parse.

use vstd::prelude::*;
use vstd::string::StrSliceExecFns;
use vstd::string::StringExecFns;

use crate::ids::UserId;
use crate::text::{
    digit_val, digits_val, is_digit, lemma_digits_val_lower, lemma_u64_dec_digits,
    lemma_u64_dec_val, u64_dec, u64_to_string,
};

verus! {

/// The value of the digit run starting at `i` and ended by `terminator`,
/// together with the index just past the terminator. At least one digit is
/// required, nothing but digits may precede the terminator, and a value
/// beyond sixty-four bits does not parse.
pub open spec fn spec_scan_u64(s: Seq<char>, i: int, acc: Option<int>, terminator: char) -> Option<
    (int, int),
>
    decreases s.len() - i,
{
    if i < 0 || i >= s.len() {
        None
    } else if s[i] == terminator {
        match acc {
            Some(v) => Some((v, i + 1)),
            None => None,
        }
    } else if is_digit(s[i]) {
        let v = match acc {
            None => digit_val(s[i]),
            Some(a) => a * 10 + digit_val(s[i]),
        };
        if v > 0xffff_ffff_ffff_ffffint {
            None
        } else {
            spec_scan_u64(s, i + 1, Some(v), terminator)
        }
    } else {
        None
    }
}

/// As [`spec_scan_u64`] with a space as terminator, but the end of the input
/// terminates too; the returned index then equals the length.
pub open spec fn spec_scan_u64_to_end(s: Seq<char>, i: int, acc: Option<int>) -> Option<
    (int, int),
>
    decreases s.len() - i,
{
    if i < 0 {
        None
    } else if i >= s.len() {
        match acc {
            Some(v) => Some((v, i)),
            None => None,
        }
    } else if s[i] == ' ' {
        match acc {
            Some(v) => Some((v, i + 1)),
            None => None,
        }
    } else if is_digit(s[i]) {
        let v = match acc {
            None => digit_val(s[i]),
            Some(a) => a * 10 + digit_val(s[i]),
        };
        if v > 0xffff_ffff_ffff_ffffint {
            None
        } else {
            spec_scan_u64_to_end(s, i + 1, Some(v))
        }
    } else {
        None
    }
}

/// The index of the first occurrence of `c` at or after `i`.
pub open spec fn spec_find_char(s: Seq<char>, i: int, c: char) -> Option<int>
    decreases s.len() - i,
{
    if i < 0 || i >= s.len() {
        None
    } else if s[i] == c {
        Some(i)
    } else {
        spec_find_char(s, i + 1, c)
    }
}

/// Whether the message opens with the test envelope's fixed prefix.
pub open spec fn spec_has_test_prefix(s: Seq<char>) -> bool {
    s.len() >= 5 && s.subrange(0, 5) == "test-"@
}

/// The fields of a run-scoped envelope `test-<run>-<path>.<user> <text>`:
/// run number, test path, user number and message text. The space after the
/// user number is required; the path may be empty and may contain dashes.
pub open spec fn spec_parse_run_message(s: Seq<char>) -> Option<(int, Seq<char>, int, Seq<char>)> {
    if !spec_has_test_prefix(s) {
        None
    } else {
        match spec_scan_u64(s, 5, None, '-') {
            None => None,
            Some((run, i)) => match spec_find_char(s, i, '.') {
                None => None,
                Some(j) => {
                    let path = s.subrange(i, j);
                    match spec_scan_u64(s, j + 1, None, ' ') {
                        None => None,
                        Some((user, k)) => Some((run, path, user, s.subrange(k, s.len() as int))),
                    }
                },
            },
        }
    }
}

/// The fields of a test envelope `test-<run>-<name>.<user>[ <text>]`: as the
/// run-scoped envelope, but the name must be nonempty and the input may end
/// right after the user number, in which case the text is empty.
pub open spec fn spec_parse_test_message(s: Seq<char>) -> Option<(int, Seq<char>, int, Seq<char>)> {
    if !spec_has_test_prefix(s) {
        None
    } else {
        match spec_scan_u64(s, 5, None, '-') {
            None => None,
            Some((run, i)) => match spec_find_char(s, i, '.') {
                None => None,
                Some(j) => if i == j {
                    None
                } else {
                    let name = s.subrange(i, j);
                    match spec_scan_u64_to_end(s, j + 1, None) {
                        None => None,
                        Some((user, k)) => Some((run, name, user, s.subrange(k, s.len() as int))),
                    }
                },
            },
        }
    }
}

/// Scan a terminated digit run.
fn scan_u64(s: &str, start: usize, terminator: char) -> (r: Option<(u64, usize)>)
    requires
        start <= s@.len(),
    ensures
        r matches Some((v, k)) ==> spec_scan_u64(s@, start as int, None, terminator) == Some(
            (v as int, k as int),
        ) && k <= s@.len(),
        r is None ==> spec_scan_u64(s@, start as int, None, terminator) is None,
{
    let n = s.unicode_len();
    let mut i: usize = start;
    let mut acc: Option<u64> = None;
    while i < n
        invariant
            start <= i <= n,
            n == s@.len(),
            spec_scan_u64(s@, start as int, None, terminator) == spec_scan_u64(
                s@,
                i as int,
                match acc {
                    Some(a) => Some(a as int),
                    None => None,
                },
                terminator,
            ),
        decreases n - i,
    {
        let c = s.get_char(i);
        if c == terminator {
            return match acc {
                Some(v) => Some((v, i + 1)),
                None => None,
            };
        }
        let d = match crate::text::char_digit(c) {
            Some(d) => d,
            None => {
                return None;
            },
        };
        acc = match acc {
            None => Some(d),
            Some(a) => match a.checked_mul(10) {
                Some(m) => match m.checked_add(d) {
                    Some(v) => Some(v),
                    None => {
                        return None;
                    },
                },
                None => {
                    return None;
                },
            },
        };
        i = i + 1;
    }
    None
}

/// Scan a digit run terminated by a space or the end of the input.
fn scan_u64_to_end(s: &str, start: usize) -> (r: Option<(u64, usize)>)
    requires
        start <= s@.len(),
    ensures
        r matches Some((v, k)) ==> spec_scan_u64_to_end(s@, start as int, None) == Some(
            (v as int, k as int),
        ) && k <= s@.len(),
        r is None ==> spec_scan_u64_to_end(s@, start as int, None) is None,
{
    let n = s.unicode_len();
    let mut i: usize = start;
    let mut acc: Option<u64> = None;
    while i < n
        invariant
            start <= i <= n,
            n == s@.len(),
            spec_scan_u64_to_end(s@, start as int, None) == spec_scan_u64_to_end(
                s@,
                i as int,
                match acc {
                    Some(a) => Some(a as int),
                    None => None,
                },
            ),
        decreases n - i,
    {
        let c = s.get_char(i);
        if c == ' ' {
            return match acc {
                Some(v) => Some((v, i + 1)),
                None => None,
            };
        }
        let d = match crate::text::char_digit(c) {
            Some(d) => d,
            None => {
                return None;
            },
        };
        acc = match acc {
            None => Some(d),
            Some(a) => match a.checked_mul(10) {
                Some(m) => match m.checked_add(d) {
                    Some(v) => Some(v),
                    None => {
                        return None;
                    },
                },
                None => {
                    return None;
                },
            },
        };
        i = i + 1;
    }
    match acc {
        Some(v) => Some((v, i)),
        None => None,
    }
}

/// Find the first occurrence of `c` at or after `start`.
fn find_char_at(s: &str, start: usize, c: char) -> (r: Option<usize>)
    requires
        start <= s@.len(),
    ensures
        r matches Some(j) ==> spec_find_char(s@, start as int, c) == Some(j as int) && start <= j
            < s@.len(),
        r is None ==> spec_find_char(s@, start as int, c) is None,
{
    let n = s.unicode_len();
    let mut i: usize = start;
    while i < n
        invariant
            start <= i <= n,
            n == s@.len(),
            spec_find_char(s@, start as int, c) == spec_find_char(s@, i as int, c),
        decreases n - i,
    {
        if s.get_char(i) == c {
            return Some(i);
        }
        i = i + 1;
    }
    None
}

/// Check the fixed envelope prefix.
fn has_test_prefix(s: &str) -> (r: bool)
    ensures
        r == spec_has_test_prefix(s@),
{
    proof {
        reveal_strlit("test-");
    }
    if s.unicode_len() < 5 {
        proof {
            assert(!spec_has_test_prefix(s@));
        }
        return false;
    }
    let r = s.get_char(0) == 't' && s.get_char(1) == 'e' && s.get_char(2) == 's' && s.get_char(3)
        == 't' && s.get_char(4) == '-';
    proof {
        let sub = s@.subrange(0, 5);
        assert(sub[0] == s@[0] && sub[1] == s@[1] && sub[2] == s@[2] && sub[3] == s@[3]
            && sub[4] == s@[4]);
        if r {
            assert(sub =~= "test-"@);
        } else {
            assert(sub != "test-"@) by {
                if sub == "test-"@ {
                    assert(s@[0] == 't' && s@[1] == 'e' && s@[2] == 's' && s@[3] == 't'
                        && s@[4] == '-');
                }
            }
        }
    }
    r
}

/// Scanning a digit block that ends at the terminator folds the digits onto
/// the accumulator.
proof fn lemma_scan_digits_some(s: Seq<char>, i: int, j: int, a: int, t: char)
    requires
        0 <= i <= j < s.len(),
        s[j] == t,
        !is_digit(t),
        forall|k: int| i <= k < j ==> is_digit(#[trigger] s[k]),
        0 <= a,
        digits_val(s.subrange(i, j), a) <= 0xffff_ffff_ffff_ffffint,
    ensures
        spec_scan_u64(s, i, Some(a), t) == Some((digits_val(s.subrange(i, j), a), j + 1)),
    decreases j - i,
{
    let sub = s.subrange(i, j);
    if i == j {
        assert(sub =~= Seq::<char>::empty());
    } else {
        assert(is_digit(s[i]));
        assert(s[i] != t);
        let v = a * 10 + digit_val(s[i]);
        assert(sub.drop_first() =~= s.subrange(i + 1, j));
        assert(sub[0] == s[i]);
        assert(digits_val(sub, a) == digits_val(s.subrange(i + 1, j), v));
        assert forall|k: int| 0 <= k < s.subrange(i + 1, j).len() implies is_digit(
            #[trigger] s.subrange(i + 1, j)[k],
        ) by {
            assert(s.subrange(i + 1, j)[k] == s[i + 1 + k]);
        }
        lemma_digits_val_lower(s.subrange(i + 1, j), v);
        lemma_scan_digits_some(s, i + 1, j, v, t);
    }
}

/// Scanning a nonempty digit block from scratch yields its value and the
/// index just past the terminator.
proof fn lemma_scan_digits(s: Seq<char>, i: int, j: int, t: char)
    requires
        0 <= i < j < s.len(),
        s[j] == t,
        !is_digit(t),
        forall|k: int| i <= k < j ==> is_digit(#[trigger] s[k]),
        digits_val(s.subrange(i, j), 0) <= 0xffff_ffff_ffff_ffffint,
    ensures
        spec_scan_u64(s, i, None, t) == Some((digits_val(s.subrange(i, j), 0), j + 1)),
{
    let sub = s.subrange(i, j);
    let v = digit_val(s[i]);
    assert(sub.drop_first() =~= s.subrange(i + 1, j));
    assert(sub[0] == s[i]);
    assert(digits_val(sub, 0) == digits_val(s.subrange(i + 1, j), v));
    assert forall|k: int| 0 <= k < s.subrange(i + 1, j).len() implies is_digit(
        #[trigger] s.subrange(i + 1, j)[k],
    ) by {
        assert(s.subrange(i + 1, j)[k] == s[i + 1 + k]);
    }
    lemma_digits_val_lower(s.subrange(i + 1, j), v);
    lemma_scan_digits_some(s, i + 1, j, v, t);
}

/// As [`lemma_scan_digits`], for the scan that would also accept the end of
/// the input.
proof fn lemma_scan_digits_to_end(s: Seq<char>, i: int, j: int)
    requires
        0 <= i < j < s.len(),
        s[j] == ' ',
        forall|k: int| i <= k < j ==> is_digit(#[trigger] s[k]),
        digits_val(s.subrange(i, j), 0) <= 0xffff_ffff_ffff_ffffint,
    ensures
        spec_scan_u64_to_end(s, i, None) == Some((digits_val(s.subrange(i, j), 0), j + 1)),
{
    let sub = s.subrange(i, j);
    assert(sub.drop_first() =~= s.subrange(i + 1, j));
    assert(sub[0] == s[i]);
    assert(digits_val(sub, 0) == digits_val(s.subrange(i + 1, j), digit_val(s[i])));
    assert forall|k: int| 0 <= k < s.subrange(i + 1, j).len() implies is_digit(
        #[trigger] s.subrange(i + 1, j)[k],
    ) by {
        assert(s.subrange(i + 1, j)[k] == s[i + 1 + k]);
    }
    lemma_digits_val_lower(s.subrange(i + 1, j), digit_val(s[i]));
    lemma_scan_to_end_some(s, i, j, digit_val(s[i]));
}

proof fn lemma_scan_to_end_some_helper(s: Seq<char>, i: int, j: int, a: int)
    requires
        0 <= i <= j < s.len(),
        s[j] == ' ',
        forall|k: int| i <= k < j ==> is_digit(#[trigger] s[k]),
        0 <= a,
        digits_val(s.subrange(i, j), a) <= 0xffff_ffff_ffff_ffffint,
    ensures
        spec_scan_u64_to_end(s, i, Some(a)) == Some((digits_val(s.subrange(i, j), a), j + 1)),
    decreases j - i,
{
    let sub = s.subrange(i, j);
    if i == j {
        assert(sub =~= Seq::<char>::empty());
    } else {
        assert(is_digit(s[i]));
        let v = a * 10 + digit_val(s[i]);
        assert(sub.drop_first() =~= s.subrange(i + 1, j));
        assert(sub[0] == s[i]);
        assert(digits_val(sub, a) == digits_val(s.subrange(i + 1, j), v));
        assert forall|k: int| 0 <= k < s.subrange(i + 1, j).len() implies is_digit(
            #[trigger] s.subrange(i + 1, j)[k],
        ) by {
            assert(s.subrange(i + 1, j)[k] == s[i + 1 + k]);
        }
        lemma_digits_val_lower(s.subrange(i + 1, j), v);
        lemma_scan_to_end_some_helper(s, i + 1, j, v);
    }
}

proof fn lemma_scan_to_end_some(s: Seq<char>, i: int, j: int, v: int)
    requires
        0 <= i < j < s.len(),
        s[j] == ' ',
        forall|k: int| i <= k < j ==> is_digit(#[trigger] s[k]),
        v == digit_val(s[i]),
        digits_val(s.subrange(i + 1, j), v) <= 0xffff_ffff_ffff_ffffint,
    ensures
        spec_scan_u64_to_end(s, i, None) == Some((digits_val(s.subrange(i + 1, j), v), j + 1)),
{
    assert(is_digit(s[i]));
    assert forall|k: int| i + 1 <= k < j implies is_digit(#[trigger] s[k]) by {}
    lemma_scan_to_end_some_helper(s, i + 1, j, v);
}

/// The first occurrence of `c` at or after `i`, given its index.
proof fn lemma_find_char_first(s: Seq<char>, i: int, j: int, c: char)
    requires
        0 <= i <= j < s.len(),
        s[j] == c,
        forall|k: int| i <= k < j ==> s[k] != c,
    ensures
        spec_find_char(s, i, c) == Some(j),
    decreases j - i,
{
    if i < j {
        lemma_find_char_first(s, i + 1, j, c);
    }
}

/// A message wrapped in the envelope parses back to exactly its parts, by
/// both parsers, as long as the name is nonempty and contains no dot.
pub proof fn lemma_envelope_round_trip(run: u64, name: Seq<char>, user: u64, msg: Seq<char>)
    requires
        name.len() > 0,
        forall|k: int| 0 <= k < name.len() ==> name[k] != '.',
    ensures
        ({
            let s = "test-"@ + u64_dec(run as int) + "-"@ + name + "."@ + u64_dec(user as int)
                + " "@ + msg;
            &&& spec_parse_test_message(s) == Some((run as int, name, user as int, msg))
            &&& spec_parse_run_message(s) == Some((run as int, name, user as int, msg))
        }),
{
    reveal_strlit("test-");
    reveal_strlit("-");
    reveal_strlit(".");
    reveal_strlit(" ");
    let rd = u64_dec(run as int);
    let ud = u64_dec(user as int);
    let s = "test-"@ + rd + "-"@ + name + "."@ + ud + " "@ + msg;
    lemma_u64_dec_digits(run as int);
    lemma_u64_dec_digits(user as int);
    lemma_u64_dec_val(run as int);
    lemma_u64_dec_val(user as int);

    let j0 = 5 + rd.len() as int;  // index of the dash after the run number
    let i1 = j0 + 1;  // start of the name
    let j1 = i1 + name.len() as int;  // index of the dot
    let i2 = j1 + 1;  // start of the user number
    let j2 = i2 + ud.len() as int;  // index of the space

    assert(s.subrange(0, 5) =~= "test-"@);
    assert(spec_has_test_prefix(s));

    // The run number.
    assert(s.subrange(5, j0) =~= rd);
    assert forall|k: int| 5 <= k < j0 implies is_digit(#[trigger] s[k]) by {
        assert(s[k] == rd[k - 5]);
    }
    assert(s[j0] == '-');
    assert(!is_digit('-'));
    lemma_scan_digits(s, 5, j0, '-');
    assert(spec_scan_u64(s, 5, None, '-') == Some((run as int, i1)));

    // The name, delimited by the first dot.
    assert(s[j1] == '.');
    assert forall|k: int| i1 <= k < j1 implies s[k] != '.' by {
        assert(s[k] == name[k - i1]);
    }
    lemma_find_char_first(s, i1, j1, '.');
    assert(s.subrange(i1, j1) =~= name);

    // The user number.
    assert(s.subrange(i2, j2) =~= ud);
    assert forall|k: int| i2 <= k < j2 implies is_digit(#[trigger] s[k]) by {
        assert(s[k] == ud[k - i2]);
    }
    assert(s[j2] == ' ');
    assert(!is_digit(' '));
    lemma_scan_digits(s, i2, j2, ' ');
    lemma_scan_digits_to_end(s, i2, j2);
    assert(spec_scan_u64(s, i2, None, ' ') == Some((user as int, j2 + 1)));
    assert(spec_scan_u64_to_end(s, i2, None) == Some((user as int, j2 + 1)));

    // The carried text is everything after the space.
    assert(s.subrange(j2 + 1, s.len() as int) =~= msg);
}

/// A test path: the module path of the running test, used as the name inside
/// the envelope.
#[derive(Debug, Clone, PartialEq, Eq, PartialOrd, Ord)]
pub struct TestPath {
    path: String,
}

impl View for TestPath {
    type V = Seq<char>;

    closed spec fn view(&self) -> Seq<char> {
        self.path@
    }
}

impl TestPath {
    pub fn from_test_path_string(path: &str) -> (r: TestPath)
        ensures
            r@ == path@,
    {
        TestPath { path: path.to_owned() }
    }

    /// The path as text.
    pub fn text(&self) -> (r: String)
        ensures
            r@ == self@,
    {
        self.path.clone()
    }
}

/// One simulated participant of one test: a test path plus a user number.
#[derive(Debug, Clone, PartialEq, Eq, PartialOrd, Ord)]
pub struct TestUserId {
    test_path: TestPath,
    user: u64,
}

/// Mathematical image of a [`TestUserId`].
pub ghost struct TestUserIdV {
    pub path: Seq<char>,
    pub user: u64,
}

impl View for TestUserId {
    type V = TestUserIdV;

    closed spec fn view(&self) -> TestUserIdV {
        TestUserIdV { path: self.test_path@, user: self.user }
    }
}

impl TestUserId {
    pub fn new(test_path: TestPath, user: u64) -> (r: TestUserId)
        ensures
            r@.path == test_path@,
            r@.user == user,
    {
        TestUserId { test_path, user }
    }

    /// The participant identity this simulated user acts as.
    pub fn to_discord_user_id(&self) -> (r: UserId)
        ensures
            r == UserId(self@.user),
    {
        UserId(self.user)
    }

    pub fn number(&self) -> (r: u64)
        ensures
            r == self@.user,
    {
        self.user
    }

    /// The identity as text: the path, a dot, the user number.
    pub fn text(&self) -> (r: String)
        ensures
            r@ == self@.path + "."@ + u64_dec(self@.user as int),
    {
        self.test_path.text().concat(".").concat(u64_to_string(self.user).as_str())
    }
}

/// A parsed test envelope.
#[derive(Debug, PartialEq, Eq)]
pub struct TestMessage {
    pub test_run: u64,
    pub test_name: String,
    pub test_user: u64,
    pub text: String,
}

/// Mathematical image of a [`TestMessage`].
pub ghost struct TestMessageV {
    pub test_run: u64,
    pub test_name: Seq<char>,
    pub test_user: u64,
    pub text: Seq<char>,
}

impl View for TestMessage {
    type V = TestMessageV;

    open spec fn view(&self) -> TestMessageV {
        TestMessageV {
            test_run: self.test_run,
            test_name: self.test_name@,
            test_user: self.test_user,
            text: self.text@,
        }
    }
}

impl TestMessage {
    /// Parse a test envelope.
    pub fn parse(msg: &str) -> (r: Option<TestMessage>)
        ensures
            match spec_parse_test_message(msg@) {
                Some((run, name, user, text)) => r matches Some(m) && m@.test_run as int == run
                    && m@.test_name == name && m@.test_user as int == user && m@.text == text,
                None => r is None,
            },
    {
        let n = msg.unicode_len();
        if !has_test_prefix(msg) {
            return None;
        }
        let (run, i) = match scan_u64(msg, 5, '-') {
            Some(x) => x,
            None => {
                return None;
            },
        };
        let j = match find_char_at(msg, i, '.') {
            Some(j) => j,
            None => {
                return None;
            },
        };
        if i == j {
            return None;
        }
        let name = msg.substring_char(i, j);
        let (user, k) = match scan_u64_to_end(msg, j + 1) {
            Some(x) => x,
            None => {
                return None;
            },
        };
        let text = msg.substring_char(k, n);
        Some(
            TestMessage {
                test_run: run,
                test_name: name.to_owned(),
                test_user: user,
                text: text.to_owned(),
            },
        )
    }

    /// The run this envelope belongs to.
    pub fn test_run_id(&self) -> (r: TestRunId)
        ensures
            r.run == self@.test_run,
    {
        TestRunId::new(self.test_run)
    }

    /// The simulated participant this envelope belongs to.
    pub fn test_user_id(&self) -> (r: TestUserId)
        ensures
            r@.path == self@.test_name,
            r@.user == self@.test_user,
    {
        TestUserId::new(TestPath::from_test_path_string(self.test_name.as_str()), self.test_user)
    }
}

/// One test run, distinguishing concurrent runs on a shared channel.
#[derive(Debug, Clone, Copy, PartialEq, Eq, PartialOrd, Ord, Structural)]
pub struct TestRunId {
    pub run: u64,
}

impl TestRunId {
    pub fn new(run: u64) -> (r: TestRunId)
        ensures
            r.run == run,
    {
        TestRunId { run }
    }

    /// Parse the message and keep it only if it belongs to this run.
    pub fn filter(&self, message: &str) -> (r: Option<TestMessage>)
        ensures
            match spec_parse_test_message(message@) {
                Some((run, name, user, text)) => if run == self.run as int {
                    r matches Some(m) && m@.test_run == self.run && m@.test_name == name
                        && m@.test_user as int == user && m@.text == text
                } else {
                    r is None
                },
                None => r is None,
            },
    {
        match TestMessage::parse(message) {
            Some(m) => if m.test_run == self.run {
                Some(m)
            } else {
                None
            },
            None => None,
        }
    }

    /// Wrap a message in this run's envelope for the given simulated user.
    pub fn prefix_message(&self, test_user_id: &TestUserId, msg: &str) -> (r: String)
        ensures
            r@ == "test-"@ + u64_dec(self.run as int) + "-"@ + test_user_id@.path + "."@
                + u64_dec(test_user_id@.user as int) + " "@ + msg@,
    {
        String::from_str("test-").concat(u64_to_string(self.run).as_str()).concat("-").concat(
            test_user_id.text().as_str(),
        ).concat(" ").concat(msg)
    }

    /// The run number as text.
    pub fn text(&self) -> (r: String)
        ensures
            r@ == u64_dec(self.run as int),
    {
        u64_to_string(self.run)
    }
}

/// One test of one run: the scope one simulated conversation lives in.
#[derive(Debug, Clone, PartialEq, Eq, PartialOrd, Ord)]
pub struct TestId {
    test_run: TestRunId,
    test_name: String,
}

/// Mathematical image of a [`TestId`].
pub ghost struct TestIdV {
    pub run: u64,
    pub name: Seq<char>,
}

impl View for TestId {
    type V = TestIdV;

    closed spec fn view(&self) -> TestIdV {
        TestIdV { run: self.test_run.run, name: self.test_name@ }
    }
}

impl TestId {
    pub fn new(test_run: TestRunId, test_name: String) -> (r: TestId)
        ensures
            r@.run == test_run.run,
            r@.name == test_name@,
    {
        TestId { test_run, test_name }
    }

    /// Parse the message and keep it only if it belongs to this run and test.
    pub fn filter(&self, message: &str) -> (r: Option<TestMessage>)
        ensures
            match spec_parse_test_message(message@) {
                Some((run, name, user, text)) => if run == self@.run as int && name
                    == self@.name {
                    r matches Some(m) && m@.test_run == self@.run && m@.test_name == name
                        && m@.test_user as int == user && m@.text == text
                } else {
                    r is None
                },
                None => r is None,
            },
    {
        match self.test_run.filter(message) {
            Some(m) => if crate::text::str_eq(m.test_name.as_str(), self.test_name.as_str()) {
                Some(m)
            } else {
                None
            },
            None => None,
        }
    }

    /// Wrap a message in this test's envelope for the given user number.
    pub fn prefix_message(&self, test_user_number: u64, msg: &str) -> (r: String)
        ensures
            r@ == "test-"@ + u64_dec(self@.run as int) + "-"@ + self@.name + "."@ + u64_dec(
                test_user_number as int,
            ) + " "@ + msg@,
    {
        String::from_str("test-").concat(u64_to_string(self.test_run.run).as_str()).concat(
            "-",
        ).concat(self.test_name.as_str()).concat(".").concat(
            u64_to_string(test_user_number).as_str(),
        ).concat(" ").concat(msg)
    }
}

/// The parser for one run's envelopes on the shared channel.
#[derive(Debug, Clone, Copy, PartialEq, Eq, Structural)]
pub struct RunMessageParser {
    pub run: u64,
}

impl RunMessageParser {
    pub fn new(run: u64) -> (r: RunMessageParser)
        ensures
            r.run == run,
    {
        RunMessageParser { run }
    }

    /// Parse a run-scoped envelope, keeping it only if it belongs to this
    /// run; the simulated sender and the carried text come back.
    pub fn parse(&self, msg: &str) -> (r: Option<(TestUserId, String)>)
        ensures
            match spec_parse_run_message(msg@) {
                Some((run, path, user, text)) => if run == self.run as int {
                    r matches Some((id, m)) && id@.path == path && id@.user as int == user
                        && m@ == text
                } else {
                    r is None
                },
                None => r is None,
            },
    {
        let n = msg.unicode_len();
        if !has_test_prefix(msg) {
            return None;
        }
        let (run, i) = match scan_u64(msg, 5, '-') {
            Some(x) => x,
            None => {
                return None;
            },
        };
        let j = match find_char_at(msg, i, '.') {
            Some(j) => j,
            None => {
                return None;
            },
        };
        let path = msg.substring_char(i, j);
        let (user, k) = match scan_u64(msg, j + 1, ' ') {
            Some(x) => x,
            None => {
                return None;
            },
        };
        if run != self.run {
            return None;
        }
        let text = msg.substring_char(k, n);
        Some((TestUserId::new(TestPath::from_test_path_string(path), user), text.to_owned()))
    }

    /// The parser narrowed to one simulated participant.
    pub fn instance_message_parser(self, test_user_id: TestUserId) -> (r: InstanceMessageParser)
        ensures
            r@.run == self.run,
            r@.path == test_user_id@.path,
            r@.user == test_user_id@.user,
    {
        InstanceMessageParser::new(self, test_user_id)
    }

    /// Wrap a message in this run's envelope for the given simulated user.
    pub fn prefix_message(&self, instance: &TestUserId, msg: &str) -> (r: String)
        ensures
            r@ == "test-"@ + u64_dec(self.run as int) + "-"@ + instance@.path + "."@ + u64_dec(
                instance@.user as int,
            ) + " "@ + msg@,
    {
        String::from_str("test-").concat(u64_to_string(self.run).as_str()).concat("-").concat(
            instance.text().as_str(),
        ).concat(" ").concat(msg)
    }
}

/// The parser for one simulated participant's envelopes.
#[derive(Debug, Clone, PartialEq, Eq)]
pub struct InstanceMessageParser {
    inner: RunMessageParser,
    test_user_id: TestUserId,
}

/// Mathematical image of an [`InstanceMessageParser`].
pub ghost struct InstanceMessageParserV {
    pub run: u64,
    pub path: Seq<char>,
    pub user: u64,
}

impl View for InstanceMessageParser {
    type V = InstanceMessageParserV;

    closed spec fn view(&self) -> InstanceMessageParserV {
        InstanceMessageParserV {
            run: self.inner.run,
            path: self.test_user_id@.path,
            user: self.test_user_id@.user,
        }
    }
}

impl InstanceMessageParser {
    pub fn new(inner: RunMessageParser, test_user_id: TestUserId) -> (r: InstanceMessageParser)
        ensures
            r@.run == inner.run,
            r@.path == test_user_id@.path,
            r@.user == test_user_id@.user,
    {
        InstanceMessageParser { inner, test_user_id }
    }

    /// Parse a run-scoped envelope, keeping only this participant's text.
    pub fn parse(&self, msg: &str) -> (r: Option<String>)
        ensures
            match spec_parse_run_message(msg@) {
                Some((run, path, user, text)) => if run == self@.run as int && path == self@.path
                    && user == self@.user as int {
                    r matches Some(m) && m@ == text
                } else {
                    r is None
                },
                None => r is None,
            },
    {
        let (id, m) = match self.inner.parse(msg) {
            Some(x) => x,
            None => {
                return None;
            },
        };
        if id.number() != self.test_user_id.number() {
            return None;
        }
        if !crate::text::str_eq(id.test_path.path.as_str(), self.test_user_id.test_path.path.as_str()) {
            return None;
        }
        Some(m)
    }

    /// Wrap a message in the envelope of this participant.
    pub fn prefix_message(&self, msg: &str) -> (r: String)
        ensures
            r@ == "test-"@ + u64_dec(self@.run as int) + "-"@ + self@.path + "."@ + u64_dec(
                self@.user as int,
            ) + " "@ + msg@,
    {
        self.inner.prefix_message(&self.test_user_id, msg)
    }
}

} // verus!
