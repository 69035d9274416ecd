//! The three axes a predefined preset is classified by: codec, hardware
//! acceleration and quality, each with its canonical lowercase name.

use vstd::prelude::*;

verus! {

/// ASCII letters, digits and the underscore.
pub open spec fn is_ascii_word_char(c: char) -> bool {
    ('a' <= c && c <= 'z') || ('A' <= c && c <= 'Z') || ('0' <= c && c <= '9') || c == '_'
}

/// Whether the regex class `\w` (Unicode letters, marks, decimal digits,
/// connector punctuation and join controls) holds the character.
pub uninterp spec fn regex_word_char(c: char) -> bool;

/// A word character in the sense of the regex class `\w`: it holds every
/// ASCII letter, digit and the underscore, and not the dash.
pub open spec fn is_word_char(c: char) -> bool {
    c != '-' && (is_ascii_word_char(c) || regex_word_char(c))
}

/// Relies on `regex::Regex::is_match` with the pattern `^\w$`: whether the
/// character is in the Unicode word class, which takes in `[0-9A-Za-z_]` and
/// leaves out `-`.
#[verifier::external_body]
pub fn word_char(c: char) -> (r: bool)
    ensures
        r == regex_word_char(c),
        r == is_word_char(c),
{
    let mut buf = [0u8; 4];
    regex::Regex::new(r"^\w$").unwrap().is_match(c.encode_utf8(&mut buf))
}

/// The character with ASCII upper-case letters mapped to lower case.
pub open spec fn lower_char(c: char) -> char {
    if 'A' <= c && c <= 'Z' {
        ((c as u32) + 32) as char
    } else {
        c
    }
}

pub open spec fn ascii_lower(s: Seq<char>) -> Seq<char> {
    s.map_values(|c: char| lower_char(c))
}

/// Target video encoding.
#[derive(Clone, Copy, Debug, PartialEq, Eq, PartialOrd, Ord, Hash, Structural)]
pub enum FFmpegCodec {
    H264,
    H265,
    Av1,
}

/// Optional hardware encoding backend.
#[derive(Clone, Copy, Debug, PartialEq, Eq, PartialOrd, Ord, Hash, Structural)]
pub enum FFmpegHwAccel {
    Nvidia,
    Amd,
    Apple,
}

/// Coarse compression-quality tier; `Normal` keeps ffmpeg's default.
#[derive(Clone, Copy, Debug, PartialEq, Eq, PartialOrd, Ord, Hash, Structural)]
pub enum FFmpegQuality {
    Lossless,
    Normal,
    Low,
}

impl FFmpegCodec {
    pub open spec fn spec_all() -> Seq<FFmpegCodec> {
        seq![FFmpegCodec::H264, FFmpegCodec::H265, FFmpegCodec::Av1]
    }

    pub open spec fn spec_name(self) -> Seq<char> {
        match self {
            FFmpegCodec::H264 => seq!['h', '2', '6', '4'],
            FFmpegCodec::H265 => seq!['h', '2', '6', '5'],
            FFmpegCodec::Av1 => seq!['a', 'v', '1'],
        }
    }

    /// Every codec, in canonical order.
    pub fn all() -> (r: Vec<FFmpegCodec>)
        ensures
            r@ == Self::spec_all(),
    {
        let r = vec![FFmpegCodec::H264, FFmpegCodec::H265, FFmpegCodec::Av1];
        assert(r@ =~= Self::spec_all());
        r
    }

    /// The canonical lowercase name.
    pub fn name(&self) -> (r: &'static str)
        ensures
            r@ == self.spec_name(),
    {
        match self {
            FFmpegCodec::H264 => {
                proof {
                    reveal_strlit("h264");
                }
                "h264"
            },
            FFmpegCodec::H265 => {
                proof {
                    reveal_strlit("h265");
                }
                "h265"
            },
            FFmpegCodec::Av1 => {
                proof {
                    reveal_strlit("av1");
                }
                "av1"
            },
        }
    }

    /// The first codec whose name equals the token, ignoring ASCII case.
    pub open spec fn spec_from_token(tok: Seq<char>) -> Option<FFmpegCodec> {
        if ascii_lower(tok) == FFmpegCodec::H264.spec_name() { Some(FFmpegCodec::H264) } else if ascii_lower(tok) == FFmpegCodec::H265.spec_name() { Some(FFmpegCodec::H265) } else if ascii_lower(tok) == FFmpegCodec::Av1.spec_name() { Some(FFmpegCodec::Av1) } else { None }
    }

    /// Looks the token up among the names, ignoring ASCII case.
    pub fn from_token(tok: &str) -> (r: Option<FFmpegCodec>)
        ensures
            r == Self::spec_from_token(tok@),
    {
        let all = Self::all();
        let mut i: usize = 0;
        while i < all.len()
            invariant
                all@ == Self::spec_all(),
                0 <= i <= all@.len(),
                forall|j: int| 0 <= j < i ==> ascii_lower(tok@) != #[trigger] all@[j].spec_name(),
            decreases all.len() - i,
        {
            if eq_ignore_ascii_case(tok, all[i].name()) {
                return Some(all[i]);
            }
            i += 1;
        }
        None
    }
}

impl FFmpegHwAccel {
    pub open spec fn spec_all() -> Seq<FFmpegHwAccel> {
        seq![FFmpegHwAccel::Nvidia, FFmpegHwAccel::Amd, FFmpegHwAccel::Apple]
    }

    pub open spec fn spec_name(self) -> Seq<char> {
        match self {
            FFmpegHwAccel::Nvidia => seq!['n', 'v', 'i', 'd', 'i', 'a'],
            FFmpegHwAccel::Amd => seq!['a', 'm', 'd'],
            FFmpegHwAccel::Apple => seq!['a', 'p', 'p', 'l', 'e'],
        }
    }

    /// Every hardware acceleration, in canonical order.
    pub fn all() -> (r: Vec<FFmpegHwAccel>)
        ensures
            r@ == Self::spec_all(),
    {
        let r = vec![FFmpegHwAccel::Nvidia, FFmpegHwAccel::Amd, FFmpegHwAccel::Apple];
        assert(r@ =~= Self::spec_all());
        r
    }

    /// The canonical lowercase name.
    pub fn name(&self) -> (r: &'static str)
        ensures
            r@ == self.spec_name(),
    {
        match self {
            FFmpegHwAccel::Nvidia => {
                proof {
                    reveal_strlit("nvidia");
                }
                "nvidia"
            },
            FFmpegHwAccel::Amd => {
                proof {
                    reveal_strlit("amd");
                }
                "amd"
            },
            FFmpegHwAccel::Apple => {
                proof {
                    reveal_strlit("apple");
                }
                "apple"
            },
        }
    }

    /// The first hardware acceleration whose name equals the token, ignoring ASCII case.
    pub open spec fn spec_from_token(tok: Seq<char>) -> Option<FFmpegHwAccel> {
        if ascii_lower(tok) == FFmpegHwAccel::Nvidia.spec_name() { Some(FFmpegHwAccel::Nvidia) } else if ascii_lower(tok) == FFmpegHwAccel::Amd.spec_name() { Some(FFmpegHwAccel::Amd) } else if ascii_lower(tok) == FFmpegHwAccel::Apple.spec_name() { Some(FFmpegHwAccel::Apple) } else { None }
    }

    /// Looks the token up among the names, ignoring ASCII case.
    pub fn from_token(tok: &str) -> (r: Option<FFmpegHwAccel>)
        ensures
            r == Self::spec_from_token(tok@),
    {
        let all = Self::all();
        let mut i: usize = 0;
        while i < all.len()
            invariant
                all@ == Self::spec_all(),
                0 <= i <= all@.len(),
                forall|j: int| 0 <= j < i ==> ascii_lower(tok@) != #[trigger] all@[j].spec_name(),
            decreases all.len() - i,
        {
            if eq_ignore_ascii_case(tok, all[i].name()) {
                return Some(all[i]);
            }
            i += 1;
        }
        None
    }
}

impl FFmpegQuality {
    pub open spec fn spec_all() -> Seq<FFmpegQuality> {
        seq![FFmpegQuality::Lossless, FFmpegQuality::Normal, FFmpegQuality::Low]
    }

    pub open spec fn spec_name(self) -> Seq<char> {
        match self {
            FFmpegQuality::Lossless => seq!['l', 'o', 's', 's', 'l', 'e', 's', 's'],
            FFmpegQuality::Normal => seq!['n', 'o', 'r', 'm', 'a', 'l'],
            FFmpegQuality::Low => seq!['l', 'o', 'w'],
        }
    }

    /// Every quality, in canonical order.
    pub fn all() -> (r: Vec<FFmpegQuality>)
        ensures
            r@ == Self::spec_all(),
    {
        let r = vec![FFmpegQuality::Lossless, FFmpegQuality::Normal, FFmpegQuality::Low];
        assert(r@ =~= Self::spec_all());
        r
    }

    /// The canonical lowercase name.
    pub fn name(&self) -> (r: &'static str)
        ensures
            r@ == self.spec_name(),
    {
        match self {
            FFmpegQuality::Lossless => {
                proof {
                    reveal_strlit("lossless");
                }
                "lossless"
            },
            FFmpegQuality::Normal => {
                proof {
                    reveal_strlit("normal");
                }
                "normal"
            },
            FFmpegQuality::Low => {
                proof {
                    reveal_strlit("low");
                }
                "low"
            },
        }
    }

    /// The first quality whose name equals the token, ignoring ASCII case.
    pub open spec fn spec_from_token(tok: Seq<char>) -> Option<FFmpegQuality> {
        if ascii_lower(tok) == FFmpegQuality::Lossless.spec_name() { Some(FFmpegQuality::Lossless) } else if ascii_lower(tok) == FFmpegQuality::Normal.spec_name() { Some(FFmpegQuality::Normal) } else if ascii_lower(tok) == FFmpegQuality::Low.spec_name() { Some(FFmpegQuality::Low) } else { None }
    }

    /// Looks the token up among the names, ignoring ASCII case.
    pub fn from_token(tok: &str) -> (r: Option<FFmpegQuality>)
        ensures
            r == Self::spec_from_token(tok@),
    {
        let all = Self::all();
        let mut i: usize = 0;
        while i < all.len()
            invariant
                all@ == Self::spec_all(),
                0 <= i <= all@.len(),
                forall|j: int| 0 <= j < i ==> ascii_lower(tok@) != #[trigger] all@[j].spec_name(),
            decreases all.len() - i,
        {
            if eq_ignore_ascii_case(tok, all[i].name()) {
                return Some(all[i]);
            }
            i += 1;
        }
        None
    }
}

impl FFmpegCodec {
    /// The variant written by its identifier, exactly.
    pub open spec fn spec_from_name(s: Seq<char>) -> Option<FFmpegCodec> {
        if s == "H264"@ {
            Some(FFmpegCodec::H264)
        } else if s == "H265"@ {
            Some(FFmpegCodec::H265)
        } else if s == "Av1"@ {
            Some(FFmpegCodec::Av1)
        } else {
            None
        }
    }

    /// Reads the variant from its identifier, letter case included
    /// (`H264`); any other text is an error that quotes it.
    pub fn from_name(s: &str) -> (r: Result<FFmpegCodec, String>)
        ensures
            match r {
                Ok(v) => Self::spec_from_name(s@) == Some(v),
                Err(e) => Self::spec_from_name(s@) is None && e@ == s@ + " is not a valid ffmpegcodec"@,
            },
    {
        if same_text(s, "H264") {
            Ok(FFmpegCodec::H264)
        } else if same_text(s, "H265") {
            Ok(FFmpegCodec::H265)
        } else if same_text(s, "Av1") {
            Ok(FFmpegCodec::Av1)
        } else {
            let mut e = String::from_str(s);
            e.append(" is not a valid ffmpegcodec");
            Err(e)
        }
    }
}

impl std::str::FromStr for FFmpegCodec {
    type Err = String;

    fn from_str(s: &str) -> Result<FFmpegCodec, String> {
        FFmpegCodec::from_name(s)
    }
}

impl FFmpegHwAccel {
    /// The variant written by its identifier, exactly.
    pub open spec fn spec_from_name(s: Seq<char>) -> Option<FFmpegHwAccel> {
        if s == "Nvidia"@ {
            Some(FFmpegHwAccel::Nvidia)
        } else if s == "Amd"@ {
            Some(FFmpegHwAccel::Amd)
        } else if s == "Apple"@ {
            Some(FFmpegHwAccel::Apple)
        } else {
            None
        }
    }

    /// Reads the variant from its identifier, letter case included
    /// (`Nvidia`); any other text is an error that quotes it.
    pub fn from_name(s: &str) -> (r: Result<FFmpegHwAccel, String>)
        ensures
            match r {
                Ok(v) => Self::spec_from_name(s@) == Some(v),
                Err(e) => Self::spec_from_name(s@) is None && e@ == s@ + " is not a valid ffmpeghwaccel"@,
            },
    {
        if same_text(s, "Nvidia") {
            Ok(FFmpegHwAccel::Nvidia)
        } else if same_text(s, "Amd") {
            Ok(FFmpegHwAccel::Amd)
        } else if same_text(s, "Apple") {
            Ok(FFmpegHwAccel::Apple)
        } else {
            let mut e = String::from_str(s);
            e.append(" is not a valid ffmpeghwaccel");
            Err(e)
        }
    }
}

impl std::str::FromStr for FFmpegHwAccel {
    type Err = String;

    fn from_str(s: &str) -> Result<FFmpegHwAccel, String> {
        FFmpegHwAccel::from_name(s)
    }
}

impl FFmpegQuality {
    /// The variant written by its identifier, exactly.
    pub open spec fn spec_from_name(s: Seq<char>) -> Option<FFmpegQuality> {
        if s == "Lossless"@ {
            Some(FFmpegQuality::Lossless)
        } else if s == "Normal"@ {
            Some(FFmpegQuality::Normal)
        } else if s == "Low"@ {
            Some(FFmpegQuality::Low)
        } else {
            None
        }
    }

    /// Reads the variant from its identifier, letter case included
    /// (`Lossless`); any other text is an error that quotes it.
    pub fn from_name(s: &str) -> (r: Result<FFmpegQuality, String>)
        ensures
            match r {
                Ok(v) => Self::spec_from_name(s@) == Some(v),
                Err(e) => Self::spec_from_name(s@) is None && e@ == s@ + " is not a valid ffmpegquality"@,
            },
    {
        if same_text(s, "Lossless") {
            Ok(FFmpegQuality::Lossless)
        } else if same_text(s, "Normal") {
            Ok(FFmpegQuality::Normal)
        } else if same_text(s, "Low") {
            Ok(FFmpegQuality::Low)
        } else {
            let mut e = String::from_str(s);
            e.append(" is not a valid ffmpegquality");
            Err(e)
        }
    }
}

impl std::str::FromStr for FFmpegQuality {
    type Err = String;

    fn from_str(s: &str) -> Result<FFmpegQuality, String> {
        FFmpegQuality::from_name(s)
    }
}

/// Whether the two texts are the same, character for character.
pub fn same_text(a: &str, b: &str) -> (r: bool)
    ensures
        r == (a@ == b@),
{
    let n = a.unicode_len();
    if n != b.unicode_len() {
        return false;
    }
    let mut i: usize = 0;
    while i < n
        invariant
            n == a@.len(),
            n == b@.len(),
            0 <= i <= n,
            forall|j: int| 0 <= j < i ==> a@[j] == b@[j],
        decreases n - i,
    {
        if a.get_char(i) != b.get_char(i) {
            return false;
        }
        i += 1;
    }
    assert(a@ =~= b@);
    true
}

/// Whether `tok` equals `name` once ASCII upper-case letters of `tok` are
/// lowered.
pub fn eq_ignore_ascii_case(tok: &str, name: &str) -> (r: bool)
    ensures
        r == (ascii_lower(tok@) == name@),
{
    let n = tok.unicode_len();
    if n != name.unicode_len() {
        return false;
    }
    let mut i: usize = 0;
    while i < n
        invariant
            n == tok@.len(),
            n == name@.len(),
            0 <= i <= n,
            forall|j: int| 0 <= j < i ==> lower_char(tok@[j]) == name@[j],
        decreases n - i,
    {
        let c = tok.get_char(i);
        let d = name.get_char(i);
        let same = if 'A' <= c && c <= 'Z' {
            (c as u32) + 32 == d as u32
        } else {
            c == d
        };
        if !same {
            assert(ascii_lower(tok@)[i as int] != name@[i as int]);
            return false;
        }
        i += 1;
    }
    assert(ascii_lower(tok@) =~= name@);
    true
}

} // verus!
