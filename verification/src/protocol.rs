//! Everything linked with the protocol used through the connection streams:
//! the semantic protocol version, the payload format, and the handshake that
//! gates admission of a new connection into the session layer.

use vstd::prelude::*;

use crate::text::{
    dec_str, eq_ignore_case, find_char, find_from, is_digit, is_num_str, lemma_dec_str_val,
    lemma_find_from, lemma_find_from_at, matches_ignore_case, num_val, parse_usize, render_usize,
    str_eq, trim_line, trim_line_end,
};

verus! {

/// The reason a handshake was rejected.
#[derive(Debug, PartialEq, Eq)]
pub enum HandshakeError {
    /// A required negotiation parameter is absent; the payload names it.
    MissingParameter(String),

    /// The `version` parameter does not read as a semantic version.
    MalformedVersion,

    /// The `format` parameter does not name a known payload format.
    UnknownFormat,

    /// The client's protocol version cannot interoperate with the server's.
    IncompatibleVersion,
}

/// The mathematical content of a [`Version`].
#[verifier::ext_equal]
pub ghost struct VersionView {
    /// Major version
    pub major: int,

    /// Minor version
    pub minor: int,

    /// Patch version
    pub patch: int,

    /// Additional labels, where present
    pub label: Option<Seq<char>>,
}

/// Partial implementation of Semantic Versioning: `MAJOR.MINOR.PATCH`, with
/// an optional opaque label after a dash.
#[derive(Debug, PartialEq, Eq)]
pub struct Version {
    /// Major version, increasing with incompatible API changes
    pub major: usize,

    /// Minor version, adding new functionalities
    pub minor: usize,

    /// Patch version, making backward compatible bug fixes
    pub patch: usize,

    /// Additional labels
    pub extra_labels: Option<String>,
}

impl Clone for Version {
    fn clone(&self) -> (r: Self)
        ensures
            r == *self,
    {
        Self {
            major: self.major,
            minor: self.minor,
            patch: self.patch,
            extra_labels: match &self.extra_labels {
                Some(label) => Some(label.clone()),
                None => None,
            },
        }
    }
}

impl View for Version {
    type V = VersionView;

    open spec fn view(&self) -> VersionView {
        VersionView {
            major: self.major as int,
            minor: self.minor as int,
            patch: self.patch as int,
            label: match self.extra_labels {
                Some(l) => Some(l@),
                None => None,
            },
        }
    }
}

/// The compatibility rule on two versions: equal majors and, for the
/// unstable major 0, also equal minors. Patch and label never matter.
pub open spec fn compatible(a: VersionView, b: VersionView) -> bool {
    a.major == b.major && (a.major != 0 || a.minor == b.minor)
}

/// The version named by `s`, where `s` reads as one.
///
/// The major and the minor fields end at the first two dots. The patch
/// field then runs to the first dash or the first dot, whichever comes
/// first. Where a dash ends it, the label is everything after that dash, to
/// the end of the text: an arbitrary opaque string. Where a dot ends it,
/// there is no label, and the tail after that dot is ignored. Each of the
/// three numeric fields must name a `usize`, as [`is_num_str`] has it.
pub open spec fn spec_parse_version(s: Seq<char>) -> Option<VersionView> {
    let d1 = find_from(s, '.', 0);
    let d2 = find_from(s, '.', d1 + 1);
    if d1 == s.len() || d2 == s.len() {
        None
    } else {
        let d3 = find_from(s, '.', d2 + 1);
        let h = find_from(s, '-', d2 + 1);
        let major = s.subrange(0, d1);
        let minor = s.subrange(d1 + 1, d2);
        let patch = s.subrange(
            d2 + 1,
            if h < d3 {
                h
            } else {
                d3
            },
        );
        let label = if h < d3 {
            Some(s.subrange(h + 1, s.len() as int))
        } else {
            None
        };
        if is_num_str(major) && is_num_str(minor) && is_num_str(patch) {
            Some(
                VersionView {
                    major: num_val(major),
                    minor: num_val(minor),
                    patch: num_val(patch),
                    label,
                },
            )
        } else {
            None
        }
    }
}

/// The text of a version: `major.minor.patch`, and `-label` after it where
/// a label is present.
pub open spec fn spec_render_version(v: VersionView) -> Seq<char> {
    let base = dec_str(v.major as nat) + seq!['.'] + dec_str(v.minor as nat) + seq!['.'] + dec_str(
        v.patch as nat,
    );
    match v.label {
        None => base,
        Some(l) => base + seq!['-'] + l,
    }
}

impl Version {
    /// Indicates if two given [`Version`] are compatible.
    ///
    /// Two versions are compatible if they have common major versions
    /// different than 0, or if their major versions are both 0 and their
    /// minor versions are equal.
    pub fn are_compatible(version1: &Self, version2: &Self) -> (r: bool)
        ensures
            r == compatible(version1@, version2@),
    {
        version1.major == version2.major && (version1.major != 0 || version1.minor
            == version2.minor)
    }

    /// Reads a version from text, as [`spec_parse_version`] has it, or
    /// rejects the text with [`HandshakeError::MalformedVersion`].
    pub fn parse(s: &str) -> (r: Result<Self, HandshakeError>)
        ensures
            match spec_parse_version(s@) {
                Some(v) => r matches Ok(version) && version@ == v,
                None => r == Err::<Self, HandshakeError>(HandshakeError::MalformedVersion),
            },
    {
        let n = s.unicode_len();
        proof {
            lemma_find_from(s@, '.', 0);
        }
        let d1 = find_char(s, '.', 0);
        if d1 == n {
            return Err(HandshakeError::MalformedVersion);
        }
        proof {
            lemma_find_from(s@, '.', d1 + 1);
        }
        let d2 = find_char(s, '.', d1 + 1);
        if d2 == n {
            return Err(HandshakeError::MalformedVersion);
        }
        proof {
            lemma_find_from(s@, '.', d2 + 1);
        }
        proof {
            lemma_find_from(s@, '-', d2 + 1);
        }
        let d3 = find_char(s, '.', d2 + 1);
        let h = find_char(s, '-', d2 + 1);
        let major_text = s.substring_char(0, d1);
        let minor_text = s.substring_char(d1 + 1, d2);
        let patch_text = s.substring_char(d2 + 1, if h < d3 { h } else { d3 });
        let extra_labels = if h < d3 {
            Some(s.substring_char(h + 1, n).to_owned())
        } else {
            None
        };
        let major = match parse_usize(major_text) {
            Some(v) => v,
            None => return Err(HandshakeError::MalformedVersion),
        };
        let minor = match parse_usize(minor_text) {
            Some(v) => v,
            None => return Err(HandshakeError::MalformedVersion),
        };
        let patch = match parse_usize(patch_text) {
            Some(v) => v,
            None => return Err(HandshakeError::MalformedVersion),
        };
        Ok(Self { major, minor, patch, extra_labels })
    }

    /// Writes the version out, as [`spec_render_version`] has it: the
    /// inverse of parsing.
    pub fn render(&self) -> (r: String)
        ensures
            r@ == spec_render_version(self@),
    {
        proof {
            reveal_strlit(".");
            reveal_strlit("-");
        }
        let mut r = render_usize(self.major);
        r.append(".");
        let minor = render_usize(self.minor);
        r.append(minor.as_str());
        r.append(".");
        let patch = render_usize(self.patch);
        r.append(patch.as_str());
        match &self.extra_labels {
            None => r,
            Some(label) => {
                r.append("-");
                r.append(label.as_str());
                r
            },
        }
    }
}

impl core::str::FromStr for Version {
    type Err = HandshakeError;

    fn from_str(s: &str) -> Result<Self, Self::Err> {
        Self::parse(s)
    }
}

/// Law: rendering is the inverse of parsing. The text a [`Version`] writes
/// reads back as that very version, whatever its label holds.
pub proof fn lemma_parse_render_round_trip(v: Version)
    ensures
        spec_parse_version(spec_render_version(v@)) == Some(v@),
{
    let a = dec_str(v@.major as nat);
    let b = dec_str(v@.minor as nat);
    let c = dec_str(v@.patch as nat);
    lemma_dec_str_val(v@.major as nat);
    lemma_dec_str_val(v@.minor as nat);
    lemma_dec_str_val(v@.patch as nat);
    let s = spec_render_version(v@);
    let base = a + seq!['.'] + b + seq!['.'] + c;
    let d1 = a.len() as int;
    let d2 = (a.len() + 1 + b.len()) as int;
    // The two dots that end the major and the minor fields are the first
    // two dots of the text: everything before each is a digit.
    assert(s[d1] == '.');
    assert(s[d2] == '.');
    lemma_find_from_at(s, '.', 0, d1);
    lemma_find_from_at(s, '.', d1 + 1, d2);
    assert(s.subrange(0, d1) =~= a);
    assert(s.subrange(d1 + 1, d2) =~= b);
    assert(is_num_str(a) && num_val(a) == v@.major);
    assert(is_num_str(b) && num_val(b) == v@.minor);
    let end = (d2 + 1 + c.len()) as int;
    match v@.label {
        None => {
            assert(s =~= base);
            // Nothing but the patch digits follows the second dot: neither
            // a dot nor a dash occurs, and the patch runs to the end.
            lemma_find_from_at(s, '.', d2 + 1, s.len() as int);
            lemma_find_from_at(s, '-', d2 + 1, s.len() as int);
            assert(s.subrange(d2 + 1, s.len() as int) =~= c);
            assert(is_num_str(c) && num_val(c) == v@.patch);
            assert(spec_parse_version(s) == Some(v@));
        },
        Some(l) => {
            assert(s =~= base + seq!['-'] + l);
            // The dash written after the patch digits is the first dash
            // after the second dot, and no dot stands at or before it, so
            // the dash comes first, the patch ends there, and the label is
            // everything after it.
            assert(s[end] == '-');
            lemma_find_from_at(s, '-', d2 + 1, end);
            let d3 = find_from(s, '.', d2 + 1);
            lemma_find_from(s, '.', d2 + 1);
            assert(end < d3) by {
                if d3 <= end {
                    assert(s[d3] == '.');
                    if d3 < end {
                        assert(s[d3] == c[d3 - (d2 + 1)]);
                        assert(is_digit(c[d3 - (d2 + 1)]));
                    } else {
                        assert(s[d3] == '-');
                    }
                }
            }
            assert(s.subrange(d2 + 1, end) =~= c);
            assert(s.subrange(end + 1, s.len() as int) =~= l);
            assert(is_num_str(c) && num_val(c) == v@.patch);
            assert(spec_parse_version(s) == Some(v@));
        },
    }
}

/// Kinds of format supported by the protocol.
#[derive(Debug, PartialEq, Eq, Structural)]
pub enum Format {
    /// Bytes-based communication
    Binary,

    /// JSON-based communication
    Json,
}

/// The format named by `s`: `binary` or `json`, each letter in either case.
pub open spec fn spec_parse_format(s: Seq<char>) -> Option<Format> {
    if eq_ignore_case(s, "binary"@) {
        Some(Format::Binary)
    } else if eq_ignore_case(s, "json"@) {
        Some(Format::Json)
    } else {
        None
    }
}

impl Format {
    /// Reads a format name, ignoring ASCII letter case, or rejects the text
    /// with [`HandshakeError::UnknownFormat`].
    pub fn parse(s: &str) -> (r: Result<Self, HandshakeError>)
        ensures
            match spec_parse_format(s@) {
                Some(f) => r == Ok::<Self, HandshakeError>(f),
                None => r == Err::<Self, HandshakeError>(HandshakeError::UnknownFormat),
            },
    {
        if matches_ignore_case(s, "binary") {
            Ok(Format::Binary)
        } else if matches_ignore_case(s, "json") {
            Ok(Format::Json)
        } else {
            Err(HandshakeError::UnknownFormat)
        }
    }
}

impl core::str::FromStr for Format {
    type Err = HandshakeError;

    fn from_str(s: &str) -> Result<Self, Self::Err> {
        Self::parse(s)
    }
}

/// Protocol configuration: what a successful handshake resolves.
#[derive(Debug)]
pub struct Configuration {
    /// Format used
    pub format: Format,
}

/// The protocol version this server speaks: the build's own version.
pub open spec fn spec_server_version() -> VersionView {
    VersionView { major: 0, minor: 1, patch: 0, label: None }
}

/// The process-wide protocol version, fixed at build time and used as the
/// right-hand side of every compatibility check.
pub fn server_version() -> (v: Version)
    ensures
        v@ == spec_server_version(),
{
    Version { major: 0, minor: 1, patch: 0, extra_labels: None }
}

impl Configuration {
    /// The protocol version of this build, as text.
    pub fn version() -> (r: String)
        ensures
            r@ == spec_render_version(spec_server_version()),
    {
        server_version().render()
    }
}

/// The value under the first pair of `ps` at or after `i` whose key holds
/// the characters of `key`.
pub open spec fn lookup_from(ps: Seq<(String, String)>, key: Seq<char>, i: int) -> Option<
    Seq<char>,
>
    decreases ps.len() - i,
{
    if i < 0 || i >= ps.len() {
        None
    } else if ps[i].0@ == key {
        Some(ps[i].1@)
    } else {
        lookup_from(ps, key, i + 1)
    }
}

/// The value under the first pair of `ps` whose key holds the characters of
/// `key`, or nothing where no key does.
pub open spec fn lookup(ps: Seq<(String, String)>, key: Seq<char>) -> Option<Seq<char>> {
    lookup_from(ps, key, 0)
}

/// Finds the value under the first pair of `params` whose key equals `key`.
fn find_param<'a>(params: &'a Vec<(String, String)>, key: &str) -> (r: Option<&'a String>)
    ensures
        match r {
            Some(v) => lookup(params@, key@) == Some(v@),
            None => lookup(params@, key@) is None,
        },
{
    let mut i: usize = 0;
    while i < params.len()
        invariant
            i <= params@.len(),
            lookup(params@, key@) == lookup_from(params@, key@, i as int),
        decreases params@.len() - i,
    {
        if str_eq(params[i].0.as_str(), key) {
            return Some(&params[i].1);
        }
        i += 1;
    }
    None
}

/// The key/value pair written by one `key=value` piece of an upgrade line,
/// split at its first equals sign; a piece without one carries no pair.
pub open spec fn param_of(piece: Seq<char>) -> Option<(Seq<char>, Seq<char>)> {
    let eq = find_from(piece, '=', 0);
    if eq == piece.len() {
        None
    } else {
        Some((piece.subrange(0, eq), piece.subrange(eq + 1, piece.len() as int)))
    }
}

/// The key/value pairs of the pieces of `s` between ampersands, in order,
/// pieces without an equals sign dropped.
pub open spec fn split_params(s: Seq<char>) -> Seq<(Seq<char>, Seq<char>)>
    decreases s.len(),
    via split_params_decreases
{
    let amp = find_from(s, '&', 0);
    let head = match param_of(s.subrange(0, amp)) {
        Some(kv) => seq![kv],
        None => Seq::<(Seq<char>, Seq<char>)>::empty(),
    };
    if amp >= s.len() {
        head
    } else {
        head + split_params(s.subrange(amp + 1, s.len() as int))
    }
}

#[via_fn]
proof fn split_params_decreases(s: Seq<char>) {
    lemma_find_from(s, '&', 0);
}

/// Collects the parameters of `s` into `out`, after whatever it already
/// holds.
fn collect_params(s: &str, out: &mut Vec<(String, String)>)
    ensures
        final(out)@.len() == old(out)@.len() + split_params(s@).len(),
        forall|k: int| 0 <= k < old(out)@.len() ==> final(out)@[k] == old(out)@[k],
        forall|k: int|
            0 <= k < split_params(s@).len() ==> final(out)@[old(out)@.len() + k].0@
                == (#[trigger] split_params(s@)[k]).0 && final(out)@[old(out)@.len() + k].1@
                == split_params(s@)[k].1,
    decreases s@.len(),
{
    let n = s.unicode_len();
    proof {
        lemma_find_from(s@, '&', 0);
    }
    let amp = find_char(s, '&', 0);
    let piece = s.substring_char(0, amp);
    proof {
        lemma_find_from(piece@, '=', 0);
    }
    let eq = find_char(piece, '=', 0);
    let plen = piece.unicode_len();
    if eq < plen {
        let key = piece.substring_char(0, eq).to_owned();
        let value = piece.substring_char(eq + 1, plen).to_owned();
        out.push((key, value));
    }
    if amp < n {
        collect_params(s.substring_char(amp + 1, n), out);
    }
}

/// Reads the query-string negotiation parameters carried by a connection
/// upgrade line: `key=value` pieces separated by ampersands, each split at
/// its first equals sign, pieces without one dropped, and the trailing
/// blank space of the line ignored.
pub fn parse_params(line: &str) -> (r: Vec<(String, String)>)
    ensures
        ({
            let ps = split_params(trim_line_end(line@));
            &&& r@.len() == ps.len()
            &&& forall|k: int|
                0 <= k < ps.len() ==> r@[k].0@ == (#[trigger] ps[k]).0 && r@[k].1@ == ps[k].1
        }),
{
    let trimmed = trim_line(line);
    let mut out: Vec<(String, String)> = Vec::new();
    collect_params(trimmed, &mut out);
    out
}

/// What [`negotiate`] decides, step by step: a missing `version`, then a
/// missing `format`, then a malformed version, then an unknown format, then
/// an incompatible version each reject the connection with their own
/// reason; with all checks passed, the connection is admitted under a
/// configuration that carries the negotiated format.
pub open spec fn negotiate_post(
    ps: Seq<(String, String)>,
    r: Result<Configuration, HandshakeError>,
) -> bool {
    match lookup(ps, "version"@) {
        None => r matches Err(e) && e matches HandshakeError::MissingParameter(p) && p@
            == "version"@,
        Some(version_text) => match lookup(ps, "format"@) {
            None => r matches Err(e) && e matches HandshakeError::MissingParameter(p) && p@
                == "format"@,
            Some(format_text) => match spec_parse_version(version_text) {
                None => r == Err::<Configuration, HandshakeError>(HandshakeError::MalformedVersion),
                Some(client) => match spec_parse_format(format_text) {
                    None => r == Err::<Configuration, HandshakeError>(HandshakeError::UnknownFormat),
                    Some(format) => if !compatible(client, spec_server_version()) {
                        r == Err::<Configuration, HandshakeError>(HandshakeError::IncompatibleVersion)
                    } else {
                        r matches Ok(c) && c.format == format
                    },
                },
            },
        },
    }
}

/// Gates admission of a new connection into the session layer.
///
/// Given the raw negotiation parameters carried on the initial connection
/// request, either admits the connection, yielding the resolved
/// [`Configuration`], or rejects it with a [`HandshakeError`], before any
/// session or store state is created. The server's own version stands on
/// the right-hand side of the compatibility check.
pub fn negotiate(params: &Vec<(String, String)>) -> (r: Result<Configuration, HandshakeError>)
    ensures
        negotiate_post(params@, r),
{
    let version_text = match find_param(params, "version") {
        Some(v) => v,
        None => return Err(HandshakeError::MissingParameter(String::from_str("version"))),
    };
    let format_text = match find_param(params, "format") {
        Some(v) => v,
        None => return Err(HandshakeError::MissingParameter(String::from_str("format"))),
    };
    let client = match Version::parse(version_text.as_str()) {
        Ok(v) => v,
        Err(e) => return Err(e),
    };
    let format = match Format::parse(format_text.as_str()) {
        Ok(f) => f,
        Err(e) => return Err(e),
    };
    let server = server_version();
    if !Version::are_compatible(&client, &server) {
        return Err(HandshakeError::IncompatibleVersion);
    }
    Ok(Configuration { format })
}

} // verus!
