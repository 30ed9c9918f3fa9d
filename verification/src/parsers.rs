//! The values of the command line: an interface at a release, written
//! `name@vVERSION`, and the path of a WebAssembly module.

use vstd::prelude::*;
use vstd::string::*;
use vstd::pervasive::unreached;
use crate::text::{append_chars, chars_of, lemma_split_concat, lemma_split_free, split_chars, split_seq, string_from_chars};
use semver::Error as SemverError;

verus! {

#[verifier::external_type_specification]
#[verifier::external_body]
pub struct ExSemverError(SemverError);

/// A semantic version: its three numbers and its pre-release and build
/// texts (empty where the version has none). Every value is one the
/// version parser gave.
#[derive(Debug)]
pub struct Version {
    major: u64,
    minor: u64,
    patch: u64,
    pre: String,
    build: String,
}

/// Whether every character of `t` may stand in a pre-release or build
/// text: an ASCII letter or digit, `-` or `.`.
pub open spec fn identifier_text(t: Seq<char>) -> bool {
    forall|i: int|
        0 <= i < t.len() ==> {
            let c = #[trigger] t[i];
            ('a' <= c && c <= 'z') || ('A' <= c && c <= 'Z') || ('0' <= c && c <= '9') || c == '-'
                || c == '.'
        }
}

/// Whether `v` is a version as the parser gives them: its pre-release and
/// build texts hold only identifier characters, and the parser reads the
/// version's own text back as `v`.
pub open spec fn version_ok(v: (u64, u64, u64, Seq<char>, Seq<char>)) -> bool {
    &&& identifier_text(v.3)
    &&& identifier_text(v.4)
    &&& semver_parts(version_text(v)) == Some(v)
}

impl Version {
    #[verifier::type_invariant]
    spec fn parsed(self) -> bool {
        version_ok(self@)
    }

    /// The major number.
    pub fn major(&self) -> (r: u64)
        ensures
            r == self@.0,
    {
        self.major
    }

    /// The minor number.
    pub fn minor(&self) -> (r: u64)
        ensures
            r == self@.1,
    {
        self.minor
    }

    /// The patch number.
    pub fn patch(&self) -> (r: u64)
        ensures
            r == self@.2,
    {
        self.patch
    }

    /// The pre-release text, empty where there is none.
    pub fn pre(&self) -> (r: &str)
        ensures
            r@ == self@.3,
    {
        self.pre.as_str()
    }

    /// The build text, empty where there is none.
    pub fn build(&self) -> (r: &str)
        ensures
            r@ == self@.4,
    {
        self.build.as_str()
    }
}

impl View for Version {
    type V = (u64, u64, u64, Seq<char>, Seq<char>);

    closed spec fn view(&self) -> (u64, u64, u64, Seq<char>, Seq<char>) {
        (self.major, self.minor, self.patch, self.pre@, self.build@)
    }
}

/// The decimal digit character of `d`, below 10.
pub open spec fn digit_char(d: nat) -> char {
    ((d + 48) as u8) as char
}

/// The decimal text of `n`, without leading zeros.
pub open spec fn decimal_text(n: nat) -> Seq<char>
    decreases n,
{
    if n < 10 {
        seq![digit_char(n)]
    } else {
        decimal_text(n / 10).push(digit_char(n % 10))
    }
}

/// The text of a version: `MAJOR.MINOR.PATCH`, then `-PRE` and `+BUILD`
/// where those are not empty.
pub open spec fn version_text(v: (u64, u64, u64, Seq<char>, Seq<char>)) -> Seq<char> {
    decimal_text(v.0 as nat) + seq!['.'] + decimal_text(v.1 as nat) + seq!['.'] + decimal_text(
        v.2 as nat,
    ) + (if v.3.len() == 0 {
        Seq::<char>::empty()
    } else {
        seq!['-'] + v.3
    }) + (if v.4.len() == 0 {
        Seq::<char>::empty()
    } else {
        seq!['+'] + v.4
    })
}

/// The version `semver::Version::parse` reads from `s`, as (major, minor,
/// patch, pre-release text, build text), or `None` where it refuses `s`.
pub uninterp spec fn semver_parts(s: Seq<char>) -> Option<(u64, u64, u64, Seq<char>, Seq<char>)>;

/// Parses a semantic version (`semver::Version::parse`), handing back its
/// fields as plain values. The claim is that the outcome is a function of
/// the text alone, named `semver_parts`; that the empty text is refused, as
/// the crate's parser does first of all; and that an accepted text is
/// exactly the text of its version, as the parser takes numbers without
/// leading zeros and keeps the non-empty pre-release and build texts as
/// written, and the crate writes a version back in that form; and that
/// those texts hold only ASCII letters, digits, `-` and `.`, the only
/// characters the parser's identifiers take.
#[verifier::external_body]
fn parse_version(s: &str) -> (r: Result<Version, SemverError>)
    ensures
        match r {
            Ok(v) => semver_parts(s@) == Some(v@),
            Err(_) => semver_parts(s@) is None,
        },
        r matches Ok(v) ==> s@ == version_text(v@),
        r matches Ok(v) ==> identifier_text(v@.3) && identifier_text(v@.4),
        s@.len() == 0 ==> r is Err,
{
    match semver::Version::parse(s) {
        Ok(v) => Ok(Version {
            major: v.major,
            minor: v.minor,
            patch: v.patch,
            pre: v.pre.as_str().to_string(),
            build: v.build.as_str().to_string(),
        }),
        Err(e) => Err(e),
    }
}

fn push_decimal(n: u64, out: &mut Vec<char>)
    ensures
        final(out)@ == old(out)@ + decimal_text(n as nat),
    decreases n,
{
    if n >= 10 {
        push_decimal(n / 10, out);
    }
    let d: u8 = (n % 10) as u8;
    out.push((d + 48u8) as char);
    assert(final(out)@ =~= old(out)@ + decimal_text(n as nat));
}

/// An interface at one of its releases.
#[derive(Debug)]
pub struct InterfaceAtRelease {
    pub name: String,
    pub version: Version,
}

/// A command-line value that is not an interface at a release: the whole
/// value as it was given.
#[derive(Debug)]
pub struct InvalidValue {
    pub value: String,
}

impl InterfaceAtRelease {
    /// The interface `name` at the release `version`, which must be a
    /// semantic version.
    pub fn new(name: &str, version: &str) -> (r: InterfaceAtRelease)
        requires
            semver_parts(version@) is Some,
        ensures
            r.name@ == name@,
            Some(r.version@) == semver_parts(version@),
            version_text(r.version@) == version@,
    {
        match parse_version(version) {
            Ok(v) => InterfaceAtRelease { name: String::from_str(name), version: v },
            Err(_) => unreached(),
        }
    }

    /// The text of the interface at its release: `name@v` and the text of
    /// the version.
    pub fn to_text(&self) -> (r: String)
        ensures
            r@ == self.name@ + seq!['@', 'v'] + version_text(self.version@),
            version_ok(self.version@),
    {
        proof {
            use_type_invariant(&self.version);
        }
        let mut out = chars_of(self.name.as_str());
        out.push('@');
        out.push('v');
        push_decimal(self.version.major, &mut out);
        out.push('.');
        push_decimal(self.version.minor, &mut out);
        out.push('.');
        push_decimal(self.version.patch, &mut out);
        let pre = chars_of(self.version.pre.as_str());
        if pre.len() > 0 {
            out.push('-');
            append_chars(&mut out, &pre);
        }
        let build = chars_of(self.version.build.as_str());
        if build.len() > 0 {
            out.push('+');
            append_chars(&mut out, &build);
        }
        let r = string_from_chars(&out);
        assert(r@ =~= self.name@ + seq!['@', 'v'] + version_text(self.version@));
        r
    }

    /// The interface `name` at the release `version`, or `None` where
    /// `version` is not a semantic version.
    pub fn try_new(name: &str, version: &str) -> (r: Option<InterfaceAtRelease>)
        ensures
            r is Some <==> semver_parts(version@) is Some,
            r matches Some(i) ==> i.name@ == name@ && Some(i.version@) == semver_parts(version@)
                && version_text(i.version@) == version@,
    {
        match parse_version(version) {
            Ok(_) => Some(InterfaceAtRelease::new(name, version)),
            Err(_) => None,
        }
    }
}

/// The name part of `name@vVERSION`: what comes before the first `@`.
pub open spec fn interface_name(value: Seq<char>) -> Seq<char> {
    split_seq(value, '@')[0]
}

/// The version part of `name@vVERSION`: the second `@`-separated field
/// without its first character, the `v`.
pub open spec fn interface_version(value: Seq<char>) -> Seq<char> {
    split_seq(value, '@')[1].skip(1)
}

/// Whether `value` has the shape the parser reads without failing: a
/// second `@`-separated field that starts with a one-byte character.
pub open spec fn interface_shaped(value: Seq<char>) -> bool {
    &&& split_seq(value, '@').len() >= 2
    &&& split_seq(value, '@')[1].len() >= 1
    &&& (split_seq(value, '@')[1][0] as u32) < 128
}

proof fn lemma_decimal_free_of_at(n: nat)
    ensures
        forall|i: int| 0 <= i < decimal_text(n).len() ==> decimal_text(n)[i] != '@',
    decreases n,
{
    if n >= 10 {
        lemma_decimal_free_of_at(n / 10);
        let d = (n % 10) as nat;
        let c = digit_char(d);
        assert((c as u32) < 64);
        let t = decimal_text(n / 10).push(c);
        assert forall|i: int| 0 <= i < t.len() implies t[i] != '@' by {
            if i < t.len() - 1 {
                assert(t[i] == decimal_text(n / 10)[i]);
            }
        }
    } else {
        assert((digit_char(n) as u32) < 64);
    }
}

/// The text of an interface at a release reads back as the same interface:
/// its name, and a version whose text is the version's text and which is
/// the same version. Every version the library holds is one the parser
/// reads back from its own text (`version_ok`, which `to_text` states of
/// the version it writes).
pub proof fn lemma_interface_version_round_trip(
    name: Seq<char>,
    version: (u64, u64, u64, Seq<char>, Seq<char>),
)
    requires
        forall|i: int| 0 <= i < name.len() ==> name[i] != '@',
        version_ok(version),
    ensures
        interface_shaped(name + seq!['@', 'v'] + version_text(version)),
        interface_name(name + seq!['@', 'v'] + version_text(version)) == name,
        interface_version(name + seq!['@', 'v'] + version_text(version)) == version_text(version),
        semver_parts(interface_version(name + seq!['@', 'v'] + version_text(version))) == Some(
            version,
        ),
{
    let t = version_text(version);
    lemma_decimal_free_of_at(version.0 as nat);
    lemma_decimal_free_of_at(version.1 as nat);
    lemma_decimal_free_of_at(version.2 as nat);
    let a = decimal_text(version.0 as nat);
    let b = decimal_text(version.1 as nat);
    let c = decimal_text(version.2 as nat);
    let pre = if version.3.len() == 0 { Seq::<char>::empty() } else { seq!['-'] + version.3 };
    let build = if version.4.len() == 0 { Seq::<char>::empty() } else { seq!['+'] + version.4 };
    assert forall|i: int| 0 <= i < pre.len() implies pre[i] != '@' by {
        if i > 0 {
            assert(pre[i] == version.3[i - 1]);
        }
    }
    assert forall|i: int| 0 <= i < build.len() implies build[i] != '@' by {
        if i > 0 {
            assert(build[i] == version.4[i - 1]);
        }
    }
    assert(t =~= a + seq!['.'] + b + seq!['.'] + c + pre + build);
    assert forall|i: int| 0 <= i < t.len() implies t[i] != '@' by {
        let l1 = a.len() as int;
        let l2 = l1 + 1;
        let l3 = l2 + b.len();
        let l4 = l3 + 1;
        let l5 = l4 + c.len();
        let l6 = l5 + pre.len();
        if i < l1 {
            assert(t[i] == a[i]);
        } else if i < l2 {
            assert(t[i] == '.');
        } else if i < l3 {
            assert(t[i] == b[i - l2]);
        } else if i < l4 {
            assert(t[i] == '.');
        } else if i < l5 {
            assert(t[i] == c[i - l4]);
        } else if i < l6 {
            assert(t[i] == pre[i - l5]);
        } else {
            assert(t[i] == build[i - l6]);
        }
    }
    lemma_interface_text_round_trip(name, t);
}

/// The parser of `name@vVERSION` values.
#[derive(Debug, Clone, Copy)]
pub struct InterfaceParser;

impl InterfaceParser {
    /// Reads `name@vVERSION`: the name is the text before the first `@`,
    /// and the version the text after the `v` that follows it, up to the
    /// next `@`. A version that is not a semantic version makes the whole
    /// value invalid.
    pub fn parse_value(&self, value: &str) -> (r: Result<InterfaceAtRelease, InvalidValue>)
        requires
            interface_shaped(value@),
        ensures
            r is Ok <==> semver_parts(interface_version(value@)) is Some,
            r matches Ok(i) ==> i.name@ == interface_name(value@) && Some(i.version@)
                == semver_parts(interface_version(value@)) && version_text(i.version@)
                == interface_version(value@),
            r matches Err(e) ==> e.value@ == value@,
    {
        let cs = chars_of(value);
        let fields = split_chars(&cs, '@');
        assert(fields.deep_view() == split_seq(value@, '@'));
        assert(fields@[0]@ == split_seq(value@, '@')[0]);
        assert(fields@[1]@ == split_seq(value@, '@')[1]);
        let name = string_from_chars(&fields[0]);
        let second = &fields[1];
        let mut rest: Vec<char> = Vec::new();
        let mut i: usize = 1;
        while i < second.len()
            invariant
                1 <= i <= second.len(),
                rest@ == second@.subrange(1, i as int),
            decreases second.len() - i,
        {
            rest.push(second[i]);
            i = i + 1;
            assert(rest@ =~= second@.subrange(1, i as int));
        }
        assert(rest@ =~= second@.skip(1));
        let version = string_from_chars(&rest);
        match parse_version(version.as_str()) {
            Ok(v) => Ok(InterfaceAtRelease { name, version: v }),
            Err(_) => Err(InvalidValue { value: String::from_str(value) }),
        }
    }
}

/// A WebAssembly module, by the path of its file.
#[derive(Debug, Clone)]
pub struct WasmModule {
    pub path: String,
}

/// Whether `pat` occurs in `s` at some position.
pub open spec fn occurs_in(s: Seq<char>, pat: Seq<char>) -> bool {
    exists|i: int|
        0 <= i && i + pat.len() <= s.len() && #[trigger] s.subrange(i, i + pat.len()) == pat
}

/// The extension of the file name that ends the path `p`, by the path rules
/// of the platform the crate is built for, or `None` where it has none.
pub uninterp spec fn path_extension(p: Seq<char>) -> Option<Seq<char>>;

/// The extension of the file name that ends the path `p`
/// (`std::path::Path::extension`), if it has one. The claim is that it is a
/// function of the path, named `path_extension`, under the path rules
/// fixed when the crate is built; and, as the standard library documents it
/// as the part of the file name after its final `.`, with the file name a
/// component of the path, that an extension holds no `.` and that the path
/// holds a `.` followed by it.
#[verifier::external_body]
fn file_extension(p: &str) -> (r: Option<String>)
    ensures
        match r {
            None => path_extension(p@) is None,
            Some(e) => path_extension(p@) == Some(e@),
        },
        r matches Some(e) ==> (forall|i: int| 0 <= i < e@.len() ==> e@[i] != '.') && occurs_in(
            p@,
            seq!['.'] + e@,
        ),
{
    match std::path::Path::new(p).extension() {
        Some(e) => Some(e.to_string_lossy().into_owned()),
        None => None,
    }
}

/// The parser of paths of WebAssembly modules.
#[derive(Debug, Clone, Copy)]
pub struct WasmModuleParser;

impl WasmModuleParser {
    /// Accepts `value` as the path of a module where its file extension,
    /// `extension`, is `wasm`; any other extension makes it invalid.
    pub fn parse_with_extension(&self, value: &str, extension: &str) -> (r: Result<
        WasmModule,
        InvalidValue,
    >)
        ensures
            r is Ok <==> extension@ == "wasm"@,
            r matches Ok(m) ==> m.path@ == value@,
            r matches Err(e) ==> e.value@ == value@,
    {
        if !(String::from_str(extension) == String::from_str("wasm")) {
            proof {
                reveal_strlit("wasm");
            }
            return Err(InvalidValue { value: String::from_str(value) });
        }
        Ok(WasmModule { path: String::from_str(value) })
    }

    /// Reads `value` as the path of a module: the path is accepted where
    /// the extension of its file name is `wasm`, and is invalid where it is
    /// another. A path whose file name has no extension gives `None`.
    pub fn parse_value(&self, value: &str) -> (r: Option<Result<WasmModule, InvalidValue>>)
        ensures
            r is None <==> path_extension(value@) is None,
            r matches Some(x) ==> (x is Ok <==> path_extension(value@)->0 == "wasm"@),
            r matches Some(Ok(m)) ==> m.path@ == value@ && occurs_in(
                value@,
                seq!['.', 'w', 'a', 's', 'm'],
            ),
            r matches Some(Err(e)) ==> e.value@ == value@,
    {
        match file_extension(value) {
            None => None,
            Some(ext) => {
                let r = self.parse_with_extension(value, ext.as_str());
                proof {
                    reveal_strlit("wasm");
                    if r is Ok {
                        assert(seq!['.'] + ext@ =~= seq!['.', 'w', 'a', 's', 'm']);
                    }
                }
                Some(r)
            },
        }
    }
}

/// The text `name@vVERSION` of an interface at a release reads back as the
/// same name and version, where neither holds an `@`.
pub proof fn lemma_interface_text_round_trip(name: Seq<char>, version: Seq<char>)
    requires
        forall|i: int| 0 <= i < name.len() ==> name[i] != '@',
        forall|i: int| 0 <= i < version.len() ==> version[i] != '@',
    ensures
        interface_shaped(name + seq!['@', 'v'] + version),
        interface_name(name + seq!['@', 'v'] + version) == name,
        interface_version(name + seq!['@', 'v'] + version) == version,
{
    let tail = seq!['v'] + version;
    assert(name + seq!['@', 'v'] + version =~= name + seq!['@'] + tail);
    assert forall|i: int| 0 <= i < tail.len() implies tail[i] != '@' by {
        if i > 0 {
            assert(tail[i] == version[i - 1]);
        }
    }
    lemma_split_concat(name, tail, '@');
    lemma_split_free(name, '@');
    lemma_split_free(tail, '@');
    let fields = split_seq(name + seq!['@'] + tail, '@');
    assert(fields =~= seq![name, tail]);
    assert(tail.skip(1) =~= version);
}

} // verus!
