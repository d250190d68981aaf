//! Semantic versions as plain values: the fields that `semver::Version` holds,
//! parsed by `semver` and written out as `semver` displays them.

use vstd::prelude::*;

verus! {

/// The fields of a semantic version, as mathematical values.
pub struct SemVerView {
    pub major: u64,
    pub minor: u64,
    pub patch: u64,
    pub pre: Seq<char>,
    pub build: Seq<char>,
}

/// A semantic version `major.minor.patch[-pre][+build]`: the five fields of
/// `semver::Version`, with the pre-release and build identifiers as text.
pub struct SemVer {
    pub major: u64,
    pub minor: u64,
    pub patch: u64,
    pub pre: String,
    pub build: String,
}

impl View for SemVer {
    type V = SemVerView;

    open spec fn view(&self) -> SemVerView {
        SemVerView {
            major: self.major,
            minor: self.minor,
            patch: self.patch,
            pre: self.pre@,
            build: self.build@,
        }
    }
}

/// What `semver::Version::parse` makes of a text: `None` where it reports an error.
pub uninterp spec fn semver_parse(text: Seq<char>) -> Option<SemVerView>;

/// `semver::Version::parse`, its result taken apart into plain fields.
/// Claimed: the fields are `semver_parse` of the text, and an error comes exactly
/// where `semver_parse` gives `None`; the grammar itself is not stated.
#[verifier::external_body]
fn parse_semver(text: &str) -> (res: Result<SemVer, semver::Error>)
    ensures
        match res {
            Ok(v) => semver_parse(text@) == Some(v@),
            Err(_) => semver_parse(text@) is None,
        },
{
    match semver::Version::parse(text) {
        Ok(v) => Ok(
            SemVer {
                major: v.major,
                minor: v.minor,
                patch: v.patch,
                pre: v.pre.as_str().to_string(),
                build: v.build.as_str().to_string(),
            },
        ),
        Err(e) => Err(e),
    }
}

/// The character of a decimal digit.
pub open spec fn digit_char(d: nat) -> char {
    if d == 0 {
        '0'
    } else if d == 1 {
        '1'
    } else if d == 2 {
        '2'
    } else if d == 3 {
        '3'
    } else if d == 4 {
        '4'
    } else if d == 5 {
        '5'
    } else if d == 6 {
        '6'
    } else if d == 7 {
        '7'
    } else if d == 8 {
        '8'
    } else {
        '9'
    }
}

/// The decimal numeral of `n`, without leading zeros.
pub open spec fn decimal(n: nat) -> Seq<char>
    decreases n,
{
    if n < 10 {
        seq![digit_char(n)]
    } else {
        decimal(n / 10) + seq![digit_char(n % 10)]
    }
}

/// A version as `semver` displays it: `major.minor.patch`, then `-pre` when there
/// is a pre-release, then `+build` when there is build metadata.
pub open spec fn version_text(v: SemVerView) -> Seq<char> {
    decimal(v.major as nat) + seq!['.'] + decimal(v.minor as nat) + seq!['.'] + decimal(
        v.patch as nat,
    ) + (if v.pre.len() > 0 {
        seq!['-'] + v.pre
    } else {
        Seq::empty()
    }) + (if v.build.len() > 0 {
        seq!['+'] + v.build
    } else {
        Seq::empty()
    })
}

/// Whether a character is one of the decimal digits `0` to `9`.
pub open spec fn is_digit(c: char) -> bool {
    '0' as int <= c as int <= '9' as int
}

/// The number that a decimal digit stands for.
pub open spec fn digit_value(c: char) -> int {
    c as int - '0' as int
}

/// The number that a string of decimal digits stands for, read from the left.
pub open spec fn numeral_value(s: Seq<char>) -> int
    decreases s.len(),
{
    if s.len() == 0 {
        0
    } else {
        numeral_value(s.drop_last()) * 10 + digit_value(s.last())
    }
}

/// Whether `s` is the usual decimal numeral of `n`: digits only, standing for `n`,
/// and no leading zero unless the numeral is `0` itself.
pub open spec fn is_numeral_of(s: Seq<char>, n: nat) -> bool {
    &&& s.len() > 0
    &&& forall|i: int| 0 <= i < s.len() ==> is_digit(#[trigger] s[i])
    &&& numeral_value(s) == n
    &&& s[0] == '0' ==> s.len() == 1
}

proof fn lemma_digit_char(d: nat)
    requires
        d < 10,
    ensures
        is_digit(digit_char(d)),
        digit_value(digit_char(d)) == d,
        digit_char(d) == '0' <==> d == 0,
{
    assert('0' as int == 48);
    assert('1' as int == 49);
    assert('2' as int == 50);
    assert('3' as int == 51);
    assert('4' as int == 52);
    assert('5' as int == 53);
    assert('6' as int == 54);
    assert('7' as int == 55);
    assert('8' as int == 56);
    assert('9' as int == 57);
}

/// `decimal(n)` is the usual decimal numeral of `n`.
pub proof fn law_decimal_is_numeral(n: nat)
    ensures
        is_numeral_of(decimal(n), n),
        n > 0 ==> decimal(n)[0] != '0',
    decreases n,
{
    lemma_digit_char(n % 10);
    if n < 10 {
        let d = decimal(n);
        assert(d.drop_last() =~= Seq::<char>::empty());
        assert(n % 10 == n);
        assert(d.last() == digit_char(n));
        assert(numeral_value(Seq::<char>::empty()) == 0);
        assert(numeral_value(d) == numeral_value(d.drop_last()) * 10 + digit_value(d.last()));
        assert(numeral_value(d) == n);
    } else {
        law_decimal_is_numeral(n / 10);
        let d = decimal(n);
        let hi = decimal(n / 10);
        assert(d == hi + seq![digit_char(n % 10)]);
        assert(d.drop_last() =~= hi);
        assert(d[0] == hi[0]);
        assert(d.last() == digit_char(n % 10));
        assert(numeral_value(d) == numeral_value(hi) * 10 + digit_value(d.last()));
        assert((n / 10) * 10 + n % 10 == n);
        assert(numeral_value(d) == n);
        assert forall|i: int| 0 <= i < d.len() implies is_digit(#[trigger] d[i]) by {
            if i < hi.len() {
                assert(d[i] == hi[i]);
            }
        }
    }
}

/// The text of a version reads back as that version: three numerals, for the
/// major, minor and patch numbers, separated by dots, then `-` and the
/// pre-release when there is one, then `+` and the build metadata when there is
/// some.
pub proof fn law_version_text_reads_back(v: SemVerView)
    ensures
        exists|major: Seq<char>, minor: Seq<char>, patch: Seq<char>|
            {
                &&& is_numeral_of(major, v.major as nat)
                &&& is_numeral_of(minor, v.minor as nat)
                &&& is_numeral_of(patch, v.patch as nat)
                &&& version_text(v) == major + seq!['.'] + minor + seq!['.'] + patch + (if v.pre.len()
                    > 0 {
                    seq!['-'] + v.pre
                } else {
                    Seq::empty()
                }) + (if v.build.len() > 0 {
                    seq!['+'] + v.build
                } else {
                    Seq::empty()
                })
            },
{
    law_decimal_is_numeral(v.major as nat);
    law_decimal_is_numeral(v.minor as nat);
    law_decimal_is_numeral(v.patch as nat);
    let major = decimal(v.major as nat);
    let minor = decimal(v.minor as nat);
    let patch = decimal(v.patch as nat);
    assert(is_numeral_of(major, v.major as nat) && is_numeral_of(minor, v.minor as nat)
        && is_numeral_of(patch, v.patch as nat));
    assert(version_text(v) == major + seq!['.'] + minor + seq!['.'] + patch + (if v.pre.len() > 0 {
        seq!['-'] + v.pre
    } else {
        Seq::empty()
    }) + (if v.build.len() > 0 {
        seq!['+'] + v.build
    } else {
        Seq::empty()
    }));
}

fn digit_str(d: u64) -> (s: &'static str)
    requires
        d < 10,
    ensures
        s@ == seq![digit_char(d as nat)],
{
    proof {
        reveal_strlit("0");
        reveal_strlit("1");
        reveal_strlit("2");
        reveal_strlit("3");
        reveal_strlit("4");
        reveal_strlit("5");
        reveal_strlit("6");
        reveal_strlit("7");
        reveal_strlit("8");
        reveal_strlit("9");
    }
    if d == 0 {
        "0"
    } else if d == 1 {
        "1"
    } else if d == 2 {
        "2"
    } else if d == 3 {
        "3"
    } else if d == 4 {
        "4"
    } else if d == 5 {
        "5"
    } else if d == 6 {
        "6"
    } else if d == 7 {
        "7"
    } else if d == 8 {
        "8"
    } else {
        "9"
    }
}

/// Appends the decimal numeral of `n` to `out`.
fn push_decimal(out: &mut String, n: u64)
    ensures
        final(out)@ == old(out)@ + decimal(n as nat),
    decreases n,
{
    if n >= 10 {
        push_decimal(out, n / 10);
    }
    out.append(digit_str(n % 10));
    proof {
        if n < 10 {
            assert(n % 10 == n);
        }
    }
}

impl SemVer {
    /// Parses a version with `semver`.
    pub fn parse(text: &str) -> (res: Result<SemVer, semver::Error>)
        ensures
            match res {
                Ok(v) => semver_parse(text@) == Some(v@),
                Err(_) => semver_parse(text@) is None,
            },
    {
        parse_semver(text)
    }

    /// Whether two versions are equal, as `semver::Version` compares them: all five
    /// fields alike.
    pub fn same_as(&self, other: &SemVer) -> (b: bool)
        ensures
            b == (self@ == other@),
    {
        self.major == other.major && self.minor == other.minor && self.patch == other.patch
            && self.pre == other.pre && self.build == other.build
    }

    /// The version written out as `semver` displays it.
    pub fn to_text(&self) -> (s: String)
        ensures
            s@ == version_text(self@),
    {
        let mut out = String::new();
        proof {
            reveal_strlit(".");
            reveal_strlit("-");
            reveal_strlit("+");
        }
        push_decimal(&mut out, self.major);
        out.append(".");
        push_decimal(&mut out, self.minor);
        out.append(".");
        push_decimal(&mut out, self.patch);
        if !self.pre.as_str().is_empty() {
            out.append("-");
            out.append(self.pre.as_str());
        }
        if !self.build.as_str().is_empty() {
            out.append("+");
            out.append(self.build.as_str());
        }
        out
    }
}

} // verus!
