use vstd::prelude::*;
use vstd::string::*;
use crate::error::TextError;

verus! {

/// The signing algorithms: a keyed BLAKE3 hash, or Ed25519 signatures.
#[derive(Debug, Clone, Copy, PartialEq, Eq, Structural)]
pub enum TextSignFormat {
    Blake3,
    ED25519,
}

/// The base64 flavours offered for plain encoding and decoding.
#[derive(Debug, Clone, Copy, PartialEq, Eq, Structural)]
pub enum Base64Format {
    Standard,
    UrlSafe,
}

/// The output formats of the CSV converter.
#[derive(Debug, Clone, Copy, PartialEq, Eq, Structural)]
pub enum OutputFormat {
    Json,
    Yaml,
}

pub open spec fn sign_format_from(s: Seq<char>) -> Option<TextSignFormat> {
    if s == seq!['b', 'l', 'a', 'k', 'e', '3'] {
        Some(TextSignFormat::Blake3)
    } else if s == seq!['e', 'd', '2', '5', '5', '1', '9'] {
        Some(TextSignFormat::ED25519)
    } else {
        None
    }
}

pub open spec fn base64_format_from(s: Seq<char>) -> Option<Base64Format> {
    if s == seq!['s', 't', 'a', 'n', 'd', 'a', 'r', 'd'] {
        Some(Base64Format::Standard)
    } else if s == seq!['u', 'r', 'l', '_', 's', 'a', 'f', 'e'] {
        Some(Base64Format::UrlSafe)
    } else {
        None
    }
}

pub open spec fn output_format_from(s: Seq<char>) -> Option<OutputFormat> {
    if s == seq!['j', 's', 'o', 'n'] {
        Some(OutputFormat::Json)
    } else if s == seq!['y', 'a', 'm', 'l'] {
        Some(OutputFormat::Yaml)
    } else {
        None
    }
}

/// Character-wise equality of two texts.
pub fn text_eq(a: &str, b: &str) -> (r: bool)
    ensures
        r == (a@ == b@),
{
    let n = a.unicode_len();
    if n != b.unicode_len() {
        return false;
    }
    let mut i: usize = 0;
    while i < n
        invariant
            n == a@.len(),
            n == b@.len(),
            i <= n,
            forall|k: int| 0 <= k < i ==> a@[k] == b@[k],
        decreases n - i,
    {
        if a.get_char(i) != b.get_char(i) {
            return false;
        }
        i = i + 1;
    }
    assert(a@ =~= b@);
    true
}

/// Parses an algorithm tag: `blake3` or `ed25519`.
pub fn parse_sign_format(s: &str) -> (r: Result<TextSignFormat, TextError>)
    ensures
        r == (match sign_format_from(s@) {
            Some(f) => Ok(f),
            None => Err(TextError::UnsupportedAlgorithm),
        }),
{
    proof {
        reveal_strlit("blake3");
        reveal_strlit("ed25519");
    }
    if text_eq(s, "blake3") {
        assert("blake3"@ =~= seq!['b', 'l', 'a', 'k', 'e', '3']);
        Ok(TextSignFormat::Blake3)
    } else if text_eq(s, "ed25519") {
        assert("ed25519"@ =~= seq!['e', 'd', '2', '5', '5', '1', '9']);
        Ok(TextSignFormat::ED25519)
    } else {
        assert("blake3"@ =~= seq!['b', 'l', 'a', 'k', 'e', '3']);
        assert("ed25519"@ =~= seq!['e', 'd', '2', '5', '5', '1', '9']);
        Err(TextError::UnsupportedAlgorithm)
    }
}

/// Parses a base64 flavour: `standard` or `url_safe`.
pub fn parse_base64_format(s: &str) -> (r: Result<Base64Format, TextError>)
    ensures
        r == (match base64_format_from(s@) {
            Some(f) => Ok(f),
            None => Err(TextError::UnsupportedAlgorithm),
        }),
{
    proof {
        reveal_strlit("standard");
        reveal_strlit("url_safe");
    }
    assert("standard"@ =~= seq!['s', 't', 'a', 'n', 'd', 'a', 'r', 'd']);
    assert("url_safe"@ =~= seq!['u', 'r', 'l', '_', 's', 'a', 'f', 'e']);
    if text_eq(s, "standard") {
        Ok(Base64Format::Standard)
    } else if text_eq(s, "url_safe") {
        Ok(Base64Format::UrlSafe)
    } else {
        Err(TextError::UnsupportedAlgorithm)
    }
}

/// Parses an output format: `json` or `yaml`.
pub fn parse_format(s: &str) -> (r: Result<OutputFormat, TextError>)
    ensures
        r == (match output_format_from(s@) {
            Some(f) => Ok(f),
            None => Err(TextError::UnsupportedAlgorithm),
        }),
{
    proof {
        reveal_strlit("json");
        reveal_strlit("yaml");
    }
    assert("json"@ =~= seq!['j', 's', 'o', 'n']);
    assert("yaml"@ =~= seq!['y', 'a', 'm', 'l']);
    if text_eq(s, "json") {
        Ok(OutputFormat::Json)
    } else if text_eq(s, "yaml") {
        Ok(OutputFormat::Yaml)
    } else {
        Err(TextError::UnsupportedAlgorithm)
    }
}

impl TextSignFormat {
    /// The tag of the algorithm, as `parse_sign_format` reads it.
    pub fn to_string(&self) -> (r: String)
        ensures
            sign_format_from(r@) == Some(*self),
    {
        proof {
            reveal_strlit("blake3");
            reveal_strlit("ed25519");
        }
        match self {
            TextSignFormat::Blake3 => {
                assert("blake3"@ =~= seq!['b', 'l', 'a', 'k', 'e', '3']);
                "blake3".to_string()
            },
            TextSignFormat::ED25519 => {
                assert("ed25519"@ =~= seq!['e', 'd', '2', '5', '5', '1', '9']);
                "ed25519".to_string()
            },
        }
    }
}

impl Base64Format {
    /// The name of the flavour, as `parse_base64_format` reads it.
    pub fn to_string(&self) -> (r: String)
        ensures
            base64_format_from(r@) == Some(*self),
    {
        proof {
            reveal_strlit("standard");
            reveal_strlit("url_safe");
        }
        assert("standard"@ =~= seq!['s', 't', 'a', 'n', 'd', 'a', 'r', 'd']);
        assert("url_safe"@ =~= seq!['u', 'r', 'l', '_', 's', 'a', 'f', 'e']);
        match self {
            Base64Format::Standard => "standard".to_string(),
            Base64Format::UrlSafe => "url_safe".to_string(),
        }
    }
}

impl OutputFormat {
    /// The name of the format, as `parse_format` reads it.
    pub fn to_string(&self) -> (r: String)
        ensures
            output_format_from(r@) == Some(*self),
    {
        proof {
            reveal_strlit("json");
            reveal_strlit("yaml");
        }
        assert("json"@ =~= seq!['j', 's', 'o', 'n']);
        assert("yaml"@ =~= seq!['y', 'a', 'm', 'l']);
        match self {
            OutputFormat::Json => "json".to_string(),
            OutputFormat::Yaml => "yaml".to_string(),
        }
    }
}

impl core::str::FromStr for TextSignFormat {
    type Err = TextError;

    fn from_str(s: &str) -> Result<Self, Self::Err> {
        parse_sign_format(s)
    }
}

impl core::str::FromStr for Base64Format {
    type Err = TextError;

    fn from_str(s: &str) -> Result<Self, Self::Err> {
        parse_base64_format(s)
    }
}

impl core::str::FromStr for OutputFormat {
    type Err = TextError;

    fn from_str(s: &str) -> Result<Self, Self::Err> {
        parse_format(s)
    }
}

} // verus!
