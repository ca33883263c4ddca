//! Version identifiers (`major.minor.patch[-suffix]`), build variants and the
//! install keys built from them.

use crate::text::{
    all_digits, byte_text, chars_of, decimal, digit_char, digit_value, digits_value, find_char,
    first_index, is_digit, lemma_first_index, lemma_first_index_found, parse_byte, push_decimal, split, split_chars,
    lemma_split_nonempty, string_of, sub_chars, views,
};
use std::cmp::Ordering;
use vstd::prelude::*;

verus! {

/// What a version holds, as plain values.
pub struct VersionModel {
    pub major: u8,
    pub minor: u8,
    pub patch: u8,
    pub suffix: Option<Seq<char>>,
}

/// Why a text is not a version.
#[derive(Debug, Clone, Copy, PartialEq, Eq, Structural)]
pub enum VersionError {
    /// Fewer than three dot-separated components.
    MissingComponents,
    /// One of the three numeric components is not a number from 0 to 255.
    InvalidNumber,
}

/// A version identifier. The suffix (a pre-release tag) is part of its
/// identity but not of its numeric order.
#[derive(Debug, Clone)]
pub struct PhpVersion {
    pub major: u8,
    pub minor: u8,
    pub patch: u8,
    pub suffix: Option<String>,
}

pub open spec fn opt_view(o: Option<String>) -> Option<Seq<char>> {
    match o {
        Some(s) => Some(s@),
        None => None,
    }
}

impl View for PhpVersion {
    type V = VersionModel;

    open spec fn view(&self) -> VersionModel {
        VersionModel {
            major: self.major,
            minor: self.minor,
            patch: self.patch,
            suffix: opt_view(self.suffix),
        }
    }
}

/// The third component's number: the text before its first `-`.
pub open spec fn patch_text(third: Seq<char>) -> Seq<char> {
    let k = first_index(third, '-');
    if k < 0 {
        third
    } else {
        third.subrange(0, k)
    }
}

/// The third component's suffix: the text after its first `-`, if any.
pub open spec fn suffix_text(third: Seq<char>) -> Option<Seq<char>> {
    let k = first_index(third, '-');
    if k < 0 {
        None
    } else {
        Some(third.subrange(k + 1, third.len() as int))
    }
}

/// How a text reads as a version: split at `.`, at least three components,
/// the first two numbers, the third a number optionally followed by
/// `-suffix`. Components after the third are not read.
pub open spec fn parse_version(s: Seq<char>) -> Result<VersionModel, VersionError> {
    let parts = split(s, '.');
    if parts.len() < 3 {
        Err(VersionError::MissingComponents)
    } else {
        match (byte_text(parts[0]), byte_text(parts[1]), byte_text(patch_text(parts[2]))) {
            (Some(major), Some(minor), Some(patch)) => Ok(
                VersionModel { major, minor, patch, suffix: suffix_text(parts[2]) },
            ),
            _ => Err(VersionError::InvalidNumber),
        }
    }
}

/// `major.minor.patch`, with `-suffix` when there is one.
pub open spec fn render(m: VersionModel) -> Seq<char> {
    let core = decimal(m.major as nat) + seq!['.'] + decimal(m.minor as nat) + seq!['.']
        + decimal(m.patch as nat);
    match m.suffix {
        Some(x) => core + seq!['-'] + x,
        None => core,
    }
}

/// The thread-safety flavour of a build. Two variants of one version are
/// installed side by side, under different keys.
#[derive(Debug, Clone, Copy, PartialEq, Eq, Structural)]
pub enum Variant {
    ThreadSafe,
    NonThreadSafe,
}

pub open spec fn variant_tag(v: Variant) -> Seq<char> {
    match v {
        Variant::ThreadSafe => seq!['t', 's'],
        Variant::NonThreadSafe => seq!['n', 't', 's'],
    }
}

impl Variant {
    /// The variant that an optional thread-safety flag names; a missing flag
    /// means thread-safe.
    pub fn from_flag(flag: Option<bool>) -> (r: Variant)
        ensures
            r == (if flag == Some(false) {
                Variant::NonThreadSafe
            } else {
                Variant::ThreadSafe
            }),
    {
        match flag {
            Some(false) => Variant::NonThreadSafe,
            _ => Variant::ThreadSafe,
        }
    }

    /// `ts` or `nts`.
    pub fn tag(&self) -> (r: String)
        ensures
            r@ == variant_tag(*self),
    {
        let mut r = String::new();
        match self {
            Variant::ThreadSafe => {},
            Variant::NonThreadSafe => r.push('n'),
        }
        r.push('t');
        r.push('s');
        proof {
            assert(r@ =~= variant_tag(*self));
        }
        r
    }
}

/// The install key of a version and variant: `version-variant`.
pub open spec fn install_key_text(m: VersionModel, v: Variant) -> Seq<char> {
    render(m) + seq!['-'] + variant_tag(v)
}

/// The install directory of a version and variant: `php-version-variant`.
pub open spec fn install_dir_text(m: VersionModel, v: Variant) -> Seq<char> {
    seq!['p', 'h', 'p', '-'] + install_key_text(m, v)
}

/// The key under which a version and variant are recorded.
pub fn install_key(version: &PhpVersion, variant: Variant) -> (r: String)
    ensures
        r@ == install_key_text(version@, variant),
{
    let mut r = version.to_string();
    r.push('-');
    let t = variant.tag();
    let ts = chars_of(t.as_str());
    crate::text::push_chars(&mut r, &ts);
    r
}

/// The name of the directory that a version and variant are installed in.
pub fn install_dir_name(version: &PhpVersion, variant: Variant) -> (r: String)
    ensures
        r@ == install_dir_text(version@, variant),
{
    let mut r = String::new();
    r.push('p');
    r.push('h');
    r.push('p');
    r.push('-');
    let k = install_key(version, variant);
    let ks = chars_of(k.as_str());
    crate::text::push_chars(&mut r, &ks);
    proof {
        assert(r@ =~= install_dir_text(version@, variant));
    }
    r
}

/// Order by the numeric triple alone.
pub open spec fn numeric_cmp(a: VersionModel, b: VersionModel) -> Ordering {
    if a.major != b.major {
        if a.major < b.major {
            Ordering::Less
        } else {
            Ordering::Greater
        }
    } else if a.minor != b.minor {
        if a.minor < b.minor {
            Ordering::Less
        } else {
            Ordering::Greater
        }
    } else if a.patch != b.patch {
        if a.patch < b.patch {
            Ordering::Less
        } else {
            Ordering::Greater
        }
    } else {
        Ordering::Equal
    }
}

pub open spec fn result_view(r: Result<PhpVersion, VersionError>) -> Result<
    VersionModel,
    VersionError,
> {
    match r {
        Ok(v) => Ok(v@),
        Err(e) => Err(e),
    }
}

impl PhpVersion {
    pub fn new(major: u8, minor: u8, patch: u8) -> (r: PhpVersion)
        ensures
            r@ == (VersionModel { major, minor, patch, suffix: None }),
    {
        PhpVersion { major, minor, patch, suffix: None }
    }

    /// Reads a version from text; a malformed text is an error, never a
    /// zeroed value.
    pub fn from_string(s: &str) -> (r: Result<PhpVersion, VersionError>)
        ensures
            result_view(r) == parse_version(s@),
    {
        let chars = chars_of(s);
        let parts = split_chars(&chars, '.');
        if parts.len() < 3 {
            return Err(VersionError::MissingComponents);
        }
        assert(views(parts@)[0] == parts@[0]@);
        assert(views(parts@)[1] == parts@[1]@);
        assert(views(parts@)[2] == parts@[2]@);
        assert(parts@[0]@ == split(s@, '.')[0]);
        assert(parts@[1]@ == split(s@, '.')[1]);
        assert(parts@[2]@ == split(s@, '.')[2]);
        let third = &parts[2];
        let (number, suffix) = match find_char(third, '-') {
            Some(k) => {
                let tail = sub_chars(third, k + 1, third.len());
                (sub_chars(third, 0, k), Some(string_of(&tail)))
            },
            None => (sub_chars(third, 0, third.len()), None),
        };
        assert(third@.subrange(0, third@.len() as int) =~= third@);
        assert(number@ == patch_text(third@));
        assert(opt_view(suffix) == suffix_text(third@));
        let major = parse_byte(&parts[0]);
        let minor = parse_byte(&parts[1]);
        let patch = parse_byte(&number);
        match (major, minor, patch) {
            (Some(major), Some(minor), Some(patch)) => Ok(PhpVersion { major, minor, patch, suffix }),
            _ => Err(VersionError::InvalidNumber),
        }
    }

    /// `major.minor.patch[-suffix]`.
    pub fn to_string(&self) -> (r: String)
        ensures
            r@ == render(self@),
    {
        let mut r = String::new();
        push_decimal(&mut r, self.major as u64);
        r.push('.');
        push_decimal(&mut r, self.minor as u64);
        r.push('.');
        push_decimal(&mut r, self.patch as u64);
        match &self.suffix {
            Some(x) => {
                r.push('-');
                let xs = chars_of(x.as_str());
                crate::text::push_chars(&mut r, &xs);
            },
            None => {},
        }
        proof {
            assert(r@ =~= render(self@));
        }
        r
    }

    /// The install directory name of this version without a variant:
    /// `php-` and the version.
    pub fn directory_name(&self) -> (r: String)
        ensures
            r@ == seq!['p', 'h', 'p', '-'] + render(self@),
    {
        let mut r = String::new();
        r.push('p');
        r.push('h');
        r.push('p');
        r.push('-');
        let v = self.to_string();
        let vs = chars_of(v.as_str());
        crate::text::push_chars(&mut r, &vs);
        proof {
            assert(r@ =~= seq!['p', 'h', 'p', '-'] + render(self@));
        }
        r
    }

    /// Compares by the numeric triple; the suffix takes no part.
    pub fn compare(&self, other: &PhpVersion) -> (r: Ordering)
        ensures
            r == numeric_cmp(self@, other@),
    {
        if self.major != other.major {
            if self.major < other.major {
                Ordering::Less
            } else {
                Ordering::Greater
            }
        } else if self.minor != other.minor {
            if self.minor < other.minor {
                Ordering::Less
            } else {
                Ordering::Greater
            }
        } else if self.patch != other.patch {
            if self.patch < other.patch {
                Ordering::Less
            } else {
                Ordering::Greater
            }
        } else {
            Ordering::Equal
        }
    }
}

fn same_suffix(a: &Option<String>, b: &Option<String>) -> (r: bool)
    ensures
        r == (opt_view(*a) == opt_view(*b)),
{
    match (a, b) {
        (Some(x), Some(y)) => x.eq(y),
        (None, None) => true,
        _ => false,
    }
}

impl PartialEq for PhpVersion {
    fn eq(&self, other: &PhpVersion) -> (r: bool) {
        self.major == other.major && self.minor == other.minor && self.patch == other.patch
            && same_suffix(&self.suffix, &other.suffix)
    }
}

impl vstd::std_specs::cmp::PartialEqSpecImpl for PhpVersion {
    open spec fn obeys_eq_spec() -> bool {
        true
    }

    open spec fn eq_spec(&self, other: &PhpVersion) -> bool {
        self@ == other@
    }
}

/// Versions with the same triple and different suffixes are unordered, so
/// that `<`, `==` and `>` agree; `compare` orders them as equal.
pub open spec fn version_partial_cmp(a: VersionModel, b: VersionModel) -> Option<Ordering> {
    if numeric_cmp(a, b) == Ordering::Equal && a.suffix != b.suffix {
        None
    } else {
        Some(numeric_cmp(a, b))
    }
}

impl PartialOrd for PhpVersion {
    fn partial_cmp(&self, other: &PhpVersion) -> (r: Option<Ordering>) {
        let c = self.compare(other);
        match c {
            Ordering::Equal => {
                if same_suffix(&self.suffix, &other.suffix) {
                    Some(Ordering::Equal)
                } else {
                    None
                }
            },
            _ => Some(c),
        }
    }
}

impl vstd::std_specs::cmp::PartialOrdSpecImpl for PhpVersion {
    open spec fn obeys_partial_cmp_spec() -> bool {
        true
    }

    open spec fn partial_cmp_spec(&self, other: &PhpVersion) -> Option<Ordering> {
        version_partial_cmp(self@, other@)
    }
}

impl Default for PhpVersion {
    fn default() -> (r: PhpVersion)
        ensures
            r@ == (VersionModel { major: 0, minor: 0, patch: 0, suffix: None }),
    {
        PhpVersion { major: 0, minor: 0, patch: 0, suffix: None }
    }
}


proof fn lemma_digit_char(d: nat)
    requires
        d < 10,
    ensures
        is_digit(digit_char(d)),
        digit_value(digit_char(d)) == d,
{
}

proof fn lemma_decimal(n: nat)
    ensures
        decimal(n).len() > 0,
        all_digits(decimal(n)),
        digits_value(decimal(n)) == n,
    decreases n,
{
    lemma_digit_char(n % 10);
    let d = decimal(n);
    assert(digits_value(d) == digits_value(d.drop_last()) * 10 + digit_value(d.last()));
    if n < 10 {
        assert(decimal(n).drop_last() =~= Seq::<char>::empty());
    } else {
        lemma_decimal(n / 10);
        assert(d.drop_last() =~= decimal(n / 10));
        assert(n == (n / 10) * 10 + n % 10);
        assert forall|i: int| 0 <= i < d.len() implies is_digit(#[trigger] d[i]) by {
            if i < d.len() - 1 {
                assert(d[i] == decimal(n / 10)[i]);
            }
        }
    }
}

proof fn lemma_digits_lack(s: Seq<char>, c: char)
    requires
        all_digits(s),
        !is_digit(c),
    ensures
        !s.contains(c),
{
    if s.contains(c) {
        let i = choose|i: int| 0 <= i < s.len() && s[i] == c;
        assert(is_digit(s[i]));
    }
}

proof fn lemma_byte_of_decimal(n: u8)
    ensures
        byte_text(decimal(n as nat)) == Some(n),
{
    lemma_decimal(n as nat);
    assert(is_digit(decimal(n as nat)[0]));
}

pub proof fn lemma_split_free(a: Seq<char>, c: char)
    requires
        !a.contains(c),
    ensures
        split(a, c) == seq![a],
    decreases a.len(),
{
    if a.len() == 0 {
        assert(a =~= Seq::<char>::empty());
    } else {
        assert(!a.drop_last().contains(c)) by {
            if a.drop_last().contains(c) {
                let i = choose|i: int| 0 <= i < a.drop_last().len() && a.drop_last()[i] == c;
                assert(a[i] == c);
            }
        }
        lemma_split_free(a.drop_last(), c);
        assert(a[a.len() - 1] != c);
        assert(a.drop_last().push(a.last()) =~= a);
        assert(split(a, c) =~= seq![a]);
    }
}

pub proof fn lemma_split_after(a: Seq<char>, b: Seq<char>, c: char)
    requires
        !a.contains(c),
    ensures
        split(a + seq![c] + b, c) == seq![a] + split(b, c),
    decreases b.len(),
{
    let s = a + seq![c] + b;
    if b.len() == 0 {
        assert(s.drop_last() =~= a);
        assert(s.last() == c);
        lemma_split_free(a, c);
        assert(b =~= Seq::<char>::empty());
        assert(split(s, c) =~= seq![a] + split(b, c));
    } else {
        lemma_split_after(a, b.drop_last(), c);
        assert(s.drop_last() =~= a + seq![c] + b.drop_last());
        lemma_split_nonempty(b.drop_last(), c);
        assert(split(s, c) =~= seq![a] + split(b, c));
    }
}

/// No piece of a split holds the separator.
proof fn lemma_split_pieces(s: Seq<char>, c: char)
    ensures
        forall|i: int| 0 <= i < split(s, c).len() ==> !(#[trigger] split(s, c)[i]).contains(c),
    decreases s.len(),
{
    if s.len() > 0 {
        lemma_split_pieces(s.drop_last(), c);
        lemma_split_nonempty(s.drop_last(), c);
        let prev = split(s.drop_last(), c);
        assert forall|i: int| 0 <= i < split(s, c).len() implies !(#[trigger] split(
            s,
            c,
        )[i]).contains(c) by {
            if s.last() != c && i == prev.len() - 1 {
                let p = prev.last().push(s.last());
                if p.contains(c) {
                    let j = choose|j: int| 0 <= j < p.len() && p[j] == c;
                    if j < prev.last().len() {
                        assert(prev.last()[j] == c);
                        assert(prev[i].contains(c));
                    }
                }
            } else if i < prev.len() {
                assert(split(s, c)[i] == prev[i]);
            } else {
                assert(split(s, c)[i] =~= Seq::<char>::empty());
            }
        }
    }
}

/// Rendering a version and reading the text back gives the same version,
/// whenever its suffix holds no `.`.
pub proof fn lemma_render_then_parse(m: VersionModel)
    requires
        match m.suffix {
            Some(x) => !x.contains('.'),
            None => true,
        },
    ensures
        parse_version(render(m)) == Ok::<VersionModel, VersionError>(m),
{
    let d1 = decimal(m.major as nat);
    let d2 = decimal(m.minor as nat);
    let d3 = decimal(m.patch as nat);
    lemma_decimal(m.major as nat);
    lemma_decimal(m.minor as nat);
    lemma_decimal(m.patch as nat);
    lemma_digits_lack(d1, '.');
    lemma_digits_lack(d2, '.');
    lemma_digits_lack(d3, '.');
    lemma_byte_of_decimal(m.major);
    lemma_byte_of_decimal(m.minor);
    lemma_byte_of_decimal(m.patch);
    let third = match m.suffix {
        Some(x) => d3 + seq!['-'] + x,
        None => d3,
    };
    assert(!third.contains('.')) by {
        if third.contains('.') {
            let i = choose|i: int| 0 <= i < third.len() && third[i] == '.';
            if i < d3.len() {
                assert(d3[i] == '.');
                assert(d3.contains('.'));
            } else if i > d3.len() {
                let x = m.suffix.unwrap();
                assert(x[i - d3.len() - 1] == '.');
                assert(x.contains('.'));
            }
        }
    }
    assert(render(m) =~= d1 + seq!['.'] + (d2 + seq!['.'] + third));
    lemma_split_after(d1, d2 + seq!['.'] + third, '.');
    lemma_split_after(d2, third, '.');
    lemma_split_free(third, '.');
    let parts = split(render(m), '.');
    assert(parts =~= seq![d1, d2, third]);
    assert forall|j: int| 0 <= j < d3.len() implies d3[j] != '-' by {
        assert(is_digit(d3[j]));
    }
    match m.suffix {
        Some(x) => {
            assert forall|j: int| 0 <= j < d3.len() implies third[j] != '-' by {
                assert(third[j] == d3[j]);
            }
            lemma_first_index(third, '-', d3.len() as int);
            assert(third.subrange(0, d3.len() as int) =~= d3);
            assert(third.subrange(d3.len() as int + 1, third.len() as int) =~= x);
        },
        None => {
            lemma_first_index(third, '-', d3.len() as int);
        },
    }
}

/// A text that reads as a version has a canonical rendering, and that
/// rendering reads back as the same version.
pub proof fn lemma_parse_then_render(s: Seq<char>)
    requires
        parse_version(s) is Ok,
    ensures
        parse_version(render(parse_version(s)->Ok_0)) == parse_version(s),
{
    let parts = split(s, '.');
    lemma_split_pieces(s, '.');
    let third = parts[2];
    assert(!third.contains('.'));
    let k = first_index(third, '-');
    lemma_first_index_found(third, '-');
    if k >= 0 {
        let x = third.subrange(k + 1, third.len() as int);
        if x.contains('.') {
            let i = choose|i: int| 0 <= i < x.len() && x[i] == '.';
            assert(x[i] == third[k + 1 + i]);
            assert(third.contains('.'));
        }
    }
    lemma_render_then_parse(parse_version(s)->Ok_0);
}

/// The two variants of one version have different install keys, so both can
/// be installed and recorded at once.
pub proof fn lemma_variant_keys_differ(m: VersionModel)
    ensures
        install_key_text(m, Variant::ThreadSafe) != install_key_text(m, Variant::NonThreadSafe),
{
    assert(install_key_text(m, Variant::ThreadSafe).len() + 1 == install_key_text(
        m,
        Variant::NonThreadSafe,
    ).len());
}

/// The order of two versions depends on their numeric triples alone, not on
/// their suffixes.
pub proof fn lemma_order_ignores_suffix(
    a: VersionModel,
    b: VersionModel,
    sa: Option<Seq<char>>,
    sb: Option<Seq<char>>,
)
    ensures
        numeric_cmp(VersionModel { suffix: sa, ..a }, VersionModel { suffix: sb, ..b })
            == numeric_cmp(a, b),
{
}

} // verus!
