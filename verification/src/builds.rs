//! Fetching and validating build metadata from the release API.

use vstd::prelude::*;
use vstd::string::*;

verus! {

/// The spec-level view of the fixed base address every request starts from.
pub open spec fn base_spec() -> Seq<char> {
    "https://api.pop-os.org/"@
}

/// The spec-level view of the full request address for a version and channel.
pub open spec fn url_spec(version: Seq<char>, channel: Seq<char>) -> Seq<char> {
    base_spec() + "builds/"@ + version + "/"@ + channel
}

/// A validated build record returned by a successful fetch.
#[derive(Debug)]
pub struct Build {
    pub channel: String,
    pub sha_sum: String,
    pub url: String,
    pub version: String,
    pub build: u16,
    pub size: u64,
}

impl Build {
    /// Produces the request address `<base>/builds/<version>/<channel>`
    /// by plain concatenation, with no escaping of either segment.
    pub fn url(version: &str, channel: &str) -> (r: String)
        ensures
            r@ == url_spec(version@, channel@),
    {
        let mut out = String::new();
        out.append("https://api.pop-os.org/");
        out.append("builds/");
        out.append(version);
        out.append("/");
        out.append(channel);
        out
    }
}

/// Whether a character is a decimal digit.
pub open spec fn is_dec_digit(c: char) -> bool {
    48 <= c as int && c as int <= 57
}

/// Whether every character of a sequence is a decimal digit.
pub open spec fn all_dec_digits(s: Seq<char>) -> bool {
    forall|i: int| 0 <= i < s.len() ==> is_dec_digit(#[trigger] s[i])
}

/// The value of a sequence of decimal digits, most significant first.
pub open spec fn dec_val(s: Seq<char>) -> nat
    decreases s.len(),
{
    if s.len() == 0 {
        0
    } else {
        (dec_val(s.drop_last()) * 10 + (s.last() as int - 48)) as nat
    }
}

/// What `str::parse::<u16>` accepts: an optional leading `+`, then one or
/// more decimal digits whose value fits in 16 bits.
pub open spec fn parse_u16_spec(s: Seq<char>) -> Option<u16> {
    let digits = if s.len() > 0 && s[0] == '+' {
        s.subrange(1, s.len() as int)
    } else {
        s
    };
    if digits.len() > 0 && all_dec_digits(digits) && dec_val(digits) <= u16::MAX {
        Some(dec_val(digits) as u16)
    } else {
        None
    }
}

/// A digit sequence is worth at least as much as any of its prefixes.
proof fn lemma_dec_val_prefix(t: Seq<char>, i: int)
    requires
        0 <= i <= t.len(),
        forall|j: int| i <= j < t.len() ==> is_dec_digit(#[trigger] t[j]),
    ensures
        dec_val(t.subrange(0, i)) <= dec_val(t),
    decreases t.len() - i,
{
    if i == t.len() {
        assert(t.subrange(0, i) =~= t);
    } else {
        assert(t.subrange(0, i + 1).drop_last() =~= t.subrange(0, i));
        assert(t.subrange(0, i + 1).last() == t[i]);
        assert(is_dec_digit(t[i]));
        assert(dec_val(t.subrange(0, i)) <= dec_val(t.subrange(0, i + 1)));
        lemma_dec_val_prefix(t, i + 1);
    }
}

/// Parses a decimal `u16` exactly as `str::parse::<u16>` does.
pub fn parse_u16(s: &str) -> (r: Option<u16>)
    ensures
        r == parse_u16_spec(s@),
{
    let len = s.unicode_len();
    let start: usize = if len > 0 && s.get_char(0) == '+' {
        1
    } else {
        0
    };
    let ghost digits: Seq<char> = s@.subrange(start as int, len as int);
    proof {
        assert(digits =~= (if s@.len() > 0 && s@[0] == '+' {
            s@.subrange(1, s@.len() as int)
        } else {
            s@
        }));
    }
    if start >= len {
        return None;
    }
    let mut val: u32 = 0;
    let mut i: usize = start;
    while i < len
        invariant
            start <= i <= len,
            len == s@.len(),
            start < len,
            digits == s@.subrange(start as int, len as int),
            digits == (if s@.len() > 0 && s@[0] == '+' {
                s@.subrange(1, s@.len() as int)
            } else {
                s@
            }),
            all_dec_digits(s@.subrange(start as int, i as int)),
            val == dec_val(s@.subrange(start as int, i as int)),
            val <= 65535,
        decreases len - i,
    {
        let c = s.get_char(i);
        let u = c as u32;
        let ghost prefix = s@.subrange(start as int, i as int);
        let ghost prefix1 = s@.subrange(start as int, i + 1 as int);
        proof {
            assert(prefix1.drop_last() =~= prefix);
            assert(prefix1.last() == s@[i as int]);
        }
        proof {
            assert(u as int == c as int);
            assert(digits[i - start] == s@[i as int]);
        }
        if u < 48 || u > 57 {
            proof {
                assert(!is_dec_digit(digits[i - start]));
                assert(!all_dec_digits(digits));
            }
            return None;
        }
        proof {
            assert(is_dec_digit(s@[i as int]));
            assert(all_dec_digits(prefix1)) by {
                assert(forall|j: int|
                    0 <= j < prefix1.len() ==> is_dec_digit(#[trigger] prefix1[j]));
            }
            assert(dec_val(prefix1) == dec_val(prefix) * 10 + (s@[i as int] as int - 48));
        }
        val = val * 10 + (u - 48);
        i = i + 1;
        proof {
            assert(val == dec_val(prefix1));
            assert(s@.subrange(start as int, i as int) =~= prefix1);
        }
        if val > 65535 {
            proof {
                if all_dec_digits(digits) {
                    assert(prefix1 =~= digits.subrange(0, i - start));
                    lemma_dec_val_prefix(digits, i - start);
                }
            }
            return None;
        }
    }
    proof {
        assert(s@.subrange(start as int, i as int) =~= digits);
    }
    Some(val as u16)
}

/// What a JSON value looks like to this library: an object maps each key to
/// the model of its field; a string and an unsigned 64-bit integer carry
/// their contents; everything else (arrays, signed or fractional numbers,
/// booleans, null) is opaque.
pub ghost enum JsonModel {
    Object(Map<Seq<char>, JsonModel>),
    Text(Seq<char>),
    UInt(u64),
    Other,
}

#[verifier::external_type_specification]
#[verifier::external_body]
pub struct ExValue(serde_json::Value);

/// The model of the JSON value that a given text parses to, or `None` where
/// the text is not valid JSON. Parsing depends on the text alone.
pub uninterp spec fn json_model_of(s: Seq<char>) -> Option<JsonModel>;

/// The model of a parsed JSON value.
pub uninterp spec fn value_model(v: serde_json::Value) -> JsonModel;

/// Relies on serde_json::from_str: whether a text is valid JSON, and the
/// value it parses to, are functions of the text alone.
#[verifier::external_body]
fn parse_json(text: &str) -> (r: Result<serde_json::Value, String>)
    ensures
        r matches Ok(v) ==> json_model_of(text@) == Some(value_model(v)),
        r is Err ==> json_model_of(text@) is None,
{
    serde_json::from_str::<serde_json::Value>(text).map_err(|e| e.to_string())
}

/// Relies on serde_json::Value::get with a string index: on an object it
/// looks the key up; on every other value it returns None.
#[verifier::external_body]
fn json_get<'a>(v: &'a serde_json::Value, key: &str) -> (r: Option<&'a serde_json::Value>)
    ensures
        match value_model(*v) {
            JsonModel::Object(m) => match r {
                Some(f) => m.contains_key(key@) && m[key@] == value_model(*f),
                None => !m.contains_key(key@),
            },
            _ => r is None,
        },
{
    v.get(key)
}

/// Relies on serde_json::Value::as_str: Some exactly on a JSON string.
#[verifier::external_body]
fn json_as_string(v: &serde_json::Value) -> (r: Option<String>)
    ensures
        match value_model(*v) {
            JsonModel::Text(s) => r matches Some(t) && t@ == s,
            _ => r is None,
        },
{
    v.as_str().map(|s| s.to_string())
}

/// Relies on serde_json::Value::as_u64: Some exactly on an integer number
/// representable in an unsigned 64-bit integer.
#[verifier::external_body]
fn json_as_u64(v: &serde_json::Value) -> (r: Option<u64>)
    ensures
        match value_model(*v) {
            JsonModel::UInt(n) => r == Some(n),
            _ => r is None,
        },
{
    v.as_u64()
}

/// Why a fetch failed.
#[derive(Debug)]
pub enum BuildsError {
    /// The server's `build` field does not parse as a 16-bit integer;
    /// carries the offending string.
    BuildNaN(String),
    /// The network request itself failed; carries the transport's own
    /// description of the cause.
    Get(String),
    /// The response body is not valid JSON or does not match the expected
    /// schema; carries a description of the decode failure.
    Json(String),
    /// Reserved for a transport that surfaces a non-success HTTP status
    /// code instead of folding it into `Get`.
    Status(u16),
}

/// The wire-format record exactly as the server sends it, before the
/// `build` field has been validated.
#[derive(Debug)]
pub struct RawBuildResponse {
    pub build: String,
    pub channel: String,
    pub sha_sum: String,
    pub url: String,
    pub version: String,
    pub size: u64,
}

/// The mathematical view of a wire-format record.
pub ghost struct RawModel {
    pub build: Seq<char>,
    pub channel: Seq<char>,
    pub sha_sum: Seq<char>,
    pub url: Seq<char>,
    pub version: Seq<char>,
    pub size: u64,
}

impl View for RawBuildResponse {
    type V = RawModel;

    open spec fn view(&self) -> RawModel {
        RawModel {
            build: self.build@,
            channel: self.channel@,
            sha_sum: self.sha_sum@,
            url: self.url@,
            version: self.version@,
            size: self.size,
        }
    }
}

/// The mathematical view of a validated build record.
pub ghost struct BuildModel {
    pub channel: Seq<char>,
    pub sha_sum: Seq<char>,
    pub url: Seq<char>,
    pub version: Seq<char>,
    pub build: u16,
    pub size: u64,
}

impl View for Build {
    type V = BuildModel;

    open spec fn view(&self) -> BuildModel {
        BuildModel {
            channel: self.channel@,
            sha_sum: self.sha_sum@,
            url: self.url@,
            version: self.version@,
            build: self.build,
            size: self.size,
        }
    }
}

/// The string held by an object's field, where the field exists and is a
/// JSON string.
pub open spec fn str_field(m: Map<Seq<char>, JsonModel>, key: Seq<char>) -> Option<Seq<char>> {
    if m.contains_key(key) {
        match m[key] {
            JsonModel::Text(s) => Some(s),
            _ => None,
        }
    } else {
        None
    }
}

/// The integer held by an object's field, where the field exists and is an
/// unsigned 64-bit integer.
pub open spec fn u64_field(m: Map<Seq<char>, JsonModel>, key: Seq<char>) -> Option<u64> {
    if m.contains_key(key) {
        match m[key] {
            JsonModel::UInt(n) => Some(n),
            _ => None,
        }
    } else {
        None
    }
}

/// The wire record a JSON value describes: an object whose `build`,
/// `channel`, `sha_sum`, `url` and `version` fields are strings and whose
/// `size` field is an unsigned integer. Anything else is rejected.
pub open spec fn raw_of_json(j: JsonModel) -> Option<RawModel> {
    match j {
        JsonModel::Object(m) => {
            if str_field(m, "build"@) is Some && str_field(m, "channel"@) is Some && str_field(
                m,
                "sha_sum"@,
            ) is Some && str_field(m, "url"@) is Some && str_field(m, "version"@) is Some
                && u64_field(m, "size"@) is Some {
                Some(
                    RawModel {
                        build: str_field(m, "build"@)->0,
                        channel: str_field(m, "channel"@)->0,
                        sha_sum: str_field(m, "sha_sum"@)->0,
                        url: str_field(m, "url"@)->0,
                        version: str_field(m, "version"@)->0,
                        size: u64_field(m, "size"@)->0,
                    },
                )
            } else {
                None
            }
        },
        _ => None,
    }
}

/// The wire record a response text decodes to, or `None` where the text is
/// not valid JSON or does not match the schema.
pub open spec fn decode_of(s: Seq<char>) -> Option<RawModel> {
    match json_model_of(s) {
        Some(j) => raw_of_json(j),
        None => None,
    }
}

/// Reads a string field out of a parsed JSON object.
fn get_string_field(root: &serde_json::Value, key: &str) -> (r: Option<String>)
    ensures
        match value_model(*root) {
            JsonModel::Object(m) => match r {
                Some(t) => str_field(m, key@) == Some(t@),
                None => str_field(m, key@) is None,
            },
            _ => r is None,
        },
{
    match json_get(root, key) {
        Some(f) => json_as_string(f),
        None => None,
    }
}

/// Reads an unsigned integer field out of a parsed JSON object.
fn get_u64_field(root: &serde_json::Value, key: &str) -> (r: Option<u64>)
    ensures
        match value_model(*root) {
            JsonModel::Object(m) => r == u64_field(m, key@),
            _ => r is None,
        },
{
    match json_get(root, key) {
        Some(f) => json_as_u64(f),
        None => None,
    }
}

/// The error reported when a response parses as JSON but does not have the
/// expected object shape.
fn schema_error() -> (e: BuildsError)
    ensures
        e matches BuildsError::Json(_),
{
    BuildsError::Json("response does not match the build schema".to_owned())
}

/// Decodes a response body into the wire-format record, rejecting anything
/// that is not a JSON object of the expected shape.
pub fn decode_response(text: &str) -> (r: Result<RawBuildResponse, BuildsError>)
    ensures
        match r {
            Ok(raw) => decode_of(text@) == Some(raw@),
            Err(e) => decode_of(text@) is None && e matches BuildsError::Json(_),
        },
{
    let root = match parse_json(text) {
        Ok(v) => v,
        Err(why) => {
            return Err(BuildsError::Json(why));
        },
    };
    let build = match get_string_field(&root, "build") {
        Some(t) => t,
        None => {
            return Err(schema_error());
        },
    };
    let channel = match get_string_field(&root, "channel") {
        Some(t) => t,
        None => {
            return Err(schema_error());
        },
    };
    let sha_sum = match get_string_field(&root, "sha_sum") {
        Some(t) => t,
        None => {
            return Err(schema_error());
        },
    };
    let url = match get_string_field(&root, "url") {
        Some(t) => t,
        None => {
            return Err(schema_error());
        },
    };
    let version = match get_string_field(&root, "version") {
        Some(t) => t,
        None => {
            return Err(schema_error());
        },
    };
    let size = match get_u64_field(&root, "size") {
        Some(n) => n,
        None => {
            return Err(schema_error());
        },
    };
    Ok(RawBuildResponse { build, channel, sha_sum, url, version, size })
}

/// The validated record a wire record converts to, or `None` where its
/// `build` field is not the decimal form of a 16-bit integer. Every other
/// field is copied verbatim.
pub open spec fn release_of(m: RawModel) -> Option<BuildModel> {
    match parse_u16_spec(m.build) {
        Some(b) => Some(
            BuildModel {
                channel: m.channel,
                sha_sum: m.sha_sum,
                url: m.url,
                version: m.version,
                build: b,
                size: m.size,
            },
        ),
        None => None,
    }
}

/// For a wire record whose `build` field is the decimal form of an integer
/// in [0, 65535], conversion succeeds, the build number equals the parsed
/// value, and every other field is copied verbatim.
pub proof fn lemma_round_trip(m: RawModel)
    requires
        parse_u16_spec(m.build) is Some,
    ensures
        release_of(m) matches Some(b) && b.build == parse_u16_spec(m.build)->0
            && b.channel == m.channel && b.sha_sum == m.sha_sum && b.url == m.url
            && b.version == m.version && b.size == m.size,
{
}

impl RawBuildResponse {
    /// Validates the wire record: parses the `build` field as a 16-bit
    /// integer and copies every other field verbatim.
    pub fn into_release(self) -> (r: Result<Build, BuildsError>)
        ensures
            match r {
                Ok(b) => release_of(self@) == Some(b@),
                Err(e) => release_of(self@) is None && (e matches BuildsError::BuildNaN(t)
                    && t@ == self@.build),
            },
    {
        let RawBuildResponse { build, channel, sha_sum, url, version, size } = self;
        match parse_u16(build.as_str()) {
            Some(n) => Ok(Build { channel, sha_sum, url, version, build: n, size }),
            None => Err(BuildsError::BuildNaN(build)),
        }
    }
}

/// What a fetch returns for a given response body: the validated record,
/// `Json` where the body is not a JSON object of the expected shape, and
/// `BuildNaN` carrying the offending string where its `build` field is not
/// a 16-bit integer.
pub open spec fn response_outcome(text: Seq<char>, r: Result<Build, BuildsError>) -> bool {
    match decode_of(text) {
        None => r matches Err(BuildsError::Json(_)),
        Some(m) => match release_of(m) {
            Some(b) => r matches Ok(rb) && rb@ == b,
            None => r matches Err(BuildsError::BuildNaN(t)) && t@ == m.build,
        },
    }
}

/// Decodes and validates a response body in one step.
pub fn from_response(text: &str) -> (r: Result<Build, BuildsError>)
    ensures
        response_outcome(text@, r),
{
    match decode_response(text) {
        Ok(raw) => raw.into_release(),
        Err(e) => Err(e),
    }
}

/// A pluggable network layer: takes a request address and yields the whole
/// response body as text, or a description of the transport failure. Exists
/// so that tests can substitute a canned response for real network traffic.
pub trait Transport {
    fn fetch(&mut self, url: &str) -> (r: Result<String, String>);
}

/// Turns whatever the transport yielded into the fetch result: a failure is
/// wrapped as `Get` with its cause kept verbatim, and a body is decoded and
/// validated.
pub fn after_transport(resp: Result<String, String>) -> (r: Result<Build, BuildsError>)
    ensures
        match resp {
            Err(why) => r matches Err(BuildsError::Get(w)) && w@ == why@,
            Ok(text) => response_outcome(text@, r),
        },
{
    match resp {
        Ok(text) => from_response(text.as_str()),
        Err(why) => Err(BuildsError::Get(why)),
    }
}

impl Build {
    /// Fetches the current build for the given release over the supplied
    /// transport. Whatever the transport does, the result is either its
    /// failure wrapped as `Get` or the outcome of decoding some body.
    pub fn get_with<T: Transport>(version: &str, channel: &str, transport: &mut T) -> (r: Result<
        Build,
        BuildsError,
    >)
        ensures
            r matches Err(BuildsError::Get(_)) || exists|text: Seq<char>|
                response_outcome(text, r),
    {
        let url = Self::url(version, channel);
        let resp = transport.fetch(url.as_str());
        let ghost gresp = resp;
        let r = after_transport(resp);
        proof {
            match gresp {
                Ok(text) => {
                    assert(response_outcome(text@, r));
                },
                Err(_) => {},
            }
        }
        r
    }

    /// Fetches only the latest build number for the given release; fails
    /// exactly as `get_with` does.
    pub fn build_exists<T: Transport>(version: &str, channel: &str, transport: &mut T) -> (r:
        Result<u16, BuildsError>)
        ensures
            r matches Err(BuildsError::Get(_)) || exists|text: Seq<char>|
                build_id_outcome(text, r),
    {
        match Self::get_with(version, channel, transport) {
            Ok(b) => {
                let ghost gb = b;
                proof {
                    if !(Ok::<Build, BuildsError>(gb) matches Err(BuildsError::Get(_))) {
                        let text = choose|t: Seq<char>|
                            response_outcome(t, Ok::<Build, BuildsError>(gb));
                        assert(build_id_outcome(text, Ok::<u16, BuildsError>(gb.build)));
                    }
                }
                Ok(b.build)
            },
            Err(e) => {
                let ghost ge = e;
                proof {
                    if !(Err::<Build, BuildsError>(ge) matches Err(BuildsError::Get(_))) {
                        let text = choose|t: Seq<char>|
                            response_outcome(t, Err::<Build, BuildsError>(ge));
                        assert(build_id_outcome(text, Err::<u16, BuildsError>(ge)));
                    }
                }
                Err(e)
            },
        }
    }
}

/// What fetching only the build number returns for a given response body.
pub open spec fn build_id_outcome(text: Seq<char>, r: Result<u16, BuildsError>) -> bool {
    match decode_of(text) {
        None => r matches Err(BuildsError::Json(_)),
        Some(m) => match release_of(m) {
            Some(b) => r == Ok::<u16, BuildsError>(b.build),
            None => r matches Err(BuildsError::BuildNaN(t)) && t@ == m.build,
        },
    }
}

} // verus!
