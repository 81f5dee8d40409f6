use vstd::prelude::*;
use crate::errors::HandlerError;

verus! {

/// The audio format of a session's PCM stream, as the upstream server
/// announces it in its handshake. Every field is unset until a handshake
/// arrives, and a handshake sets all of them at once.
#[derive(Clone, Debug, PartialEq, Eq)]
pub struct AudioInfo {
    /// The number of channels.
    pub channels: Option<u16>,
    /// The number of samples per second.
    pub sample_rate: Option<u32>,
    /// The number of bits per sample.
    pub bits_per_sample: Option<u16>,
    /// Whether the samples are `int` or `float` values.
    pub pcm_format: Option<String>,
}

/// An audio format whose four fields are all known.
#[derive(Clone, Debug, PartialEq, Eq)]
pub struct UnwrappedAudioInfo {
    pub channels: u16,
    pub sample_rate: u32,
    pub bits_per_sample: u16,
    pub pcm_format: String,
}

/// The character classes that `char::is_whitespace` accepts (Unicode `White_Space`).
pub open spec fn is_space(c: char) -> bool {
    let u = c as u32;
    ||| 0x09 <= u <= 0x0D
    ||| u == 0x20
    ||| u == 0x85
    ||| u == 0xA0
    ||| u == 0x1680
    ||| 0x2000 <= u <= 0x200A
    ||| u == 0x2028
    ||| u == 0x2029
    ||| u == 0x202F
    ||| u == 0x205F
    ||| u == 0x3000
}

/// Scanning `s` from the left: the words already closed, and the word being read.
pub open spec fn scan_words(s: Seq<char>) -> (Seq<Seq<char>>, Seq<char>)
    decreases s.len(),
{
    if s.len() == 0 {
        (seq![], seq![])
    } else {
        let (done, cur) = scan_words(s.drop_last());
        if is_space(s.last()) {
            if cur.len() > 0 {
                (done.push(cur), seq![])
            } else {
                (done, cur)
            }
        } else {
            (done, cur.push(s.last()))
        }
    }
}

/// The maximal runs of non-whitespace characters of `s`, in order
/// (what `str::split_whitespace` yields).
pub open spec fn words(s: Seq<char>) -> Seq<Seq<char>> {
    let (done, cur) = scan_words(s);
    if cur.len() > 0 {
        done.push(cur)
    } else {
        done
    }
}

pub open spec fn is_digit(c: char) -> bool {
    '0' <= c <= '9'
}

pub open spec fn all_digits(d: Seq<char>) -> bool {
    forall|i: int| 0 <= i < d.len() ==> is_digit(#[trigger] d[i])
}

/// The number that a string of decimal digits denotes.
pub open spec fn decimal_value(d: Seq<char>) -> nat
    decreases d.len(),
{
    if d.len() == 0 {
        0
    } else {
        10 * decimal_value(d.drop_last()) + ((d.last() as u32 - '0' as u32) as nat)
    }
}

/// The digits of an unsigned decimal literal: an optional leading `+` is dropped.
pub open spec fn unsigned_digits(w: Seq<char>) -> Seq<char> {
    if w.len() > 0 && w[0] == '+' {
        w.drop_first()
    } else {
        w
    }
}

/// Whether `w` is an unsigned decimal number of at most `max`, as the
/// `FromStr` impls of the unsigned integer types accept it.
pub open spec fn is_unsigned(w: Seq<char>, max: nat) -> bool {
    let d = unsigned_digits(w);
    d.len() > 0 && all_digits(d) && decimal_value(d) <= max
}

pub open spec fn unsigned_value(w: Seq<char>) -> nat {
    decimal_value(unsigned_digits(w))
}

pub open spec fn is_pcm_format(w: Seq<char>) -> bool {
    w == seq!['i', 'n', 't'] || w == seq!['f', 'l', 'o', 'a', 't']
}

/// Whether `s` is a handshake: four words, the channel count, the sample rate,
/// the bits per sample, and `int` or `float`.
pub open spec fn is_handshake(s: Seq<char>) -> bool {
    let w = words(s);
    &&& w.len() == 4
    &&& is_unsigned(w[0], u16::MAX as nat)
    &&& is_unsigned(w[1], u32::MAX as nat)
    &&& is_unsigned(w[2], u16::MAX as nat)
    &&& is_pcm_format(w[3])
}

impl AudioInfo {
    /// No field is set.
    pub open spec fn is_unset(&self) -> bool {
        &&& self.channels is None
        &&& self.sample_rate is None
        &&& self.bits_per_sample is None
        &&& self.pcm_format is None
    }

    /// Every field is set.
    pub open spec fn is_set(&self) -> bool {
        &&& self.channels is Some
        &&& self.sample_rate is Some
        &&& self.bits_per_sample is Some
        &&& self.pcm_format is Some
    }

    /// The four fields of the handshake `s`.
    pub open spec fn describes(&self, s: Seq<char>) -> bool {
        let w = words(s);
        &&& self.is_set()
        &&& self.channels->0 as nat == unsigned_value(w[0])
        &&& self.sample_rate->0 as nat == unsigned_value(w[1])
        &&& self.bits_per_sample->0 as nat == unsigned_value(w[2])
        &&& self.pcm_format->0@ == w[3]
    }

    /// A format with no field set: the state before any handshake.
    pub fn new() -> (r: AudioInfo)
        ensures
            r.is_unset(),
    {
        AudioInfo { channels: None, sample_rate: None, bits_per_sample: None, pcm_format: None }
    }

    /// Reads a handshake text. On success every field is set from it;
    /// otherwise the error carries the text.
    pub fn from_handshake(text: &str) -> (r: Result<AudioInfo, HandlerError>)
        ensures
            match r {
                Ok(info) => is_handshake(text@) && info.describes(text@),
                Err(e) => !is_handshake(text@) && (e matches HandlerError::ParseAudioInfoError(m)
                    && m@ == text@),
            },
    {
        let chars = chars_of(text);
        let w = split_words(&chars);
        if w.len() != 4 {
            return Err(HandlerError::ParseAudioInfoError(String::from_str(text)));
        }
        let channels = parse_unsigned(&w[0], 0xFFFF);
        let sample_rate = parse_unsigned(&w[1], 0xFFFF_FFFF);
        let bits_per_sample = parse_unsigned(&w[2], 0xFFFF);
        let format = &w[3];
        let is_int = format.len() == 3 && format[0] == 'i' && format[1] == 'n' && format[2]
            == 't';
        let is_float = format.len() == 5 && format[0] == 'f' && format[1] == 'l' && format[2]
            == 'o' && format[3] == 'a' && format[4] == 't';
        proof {
            if is_int {
                assert(format@ =~= seq!['i', 'n', 't']);
            }
            if is_float {
                assert(format@ =~= seq!['f', 'l', 'o', 'a', 't']);
            }
        }
        match (channels, sample_rate, bits_per_sample) {
            (Some(c), Some(r), Some(b)) => {
                if !is_int && !is_float {
                    return Err(HandlerError::ParseAudioInfoError(String::from_str(text)));
                }
                let pcm_format = if is_int {
                    String::from_str("int")
                } else {
                    String::from_str("float")
                };
                proof {
                    reveal_strlit("int");
                    reveal_strlit("float");
                    assert(pcm_format@ =~= format@);
                }
                Ok(
                    AudioInfo {
                        channels: Some(c as u16),
                        sample_rate: Some(r as u32),
                        bits_per_sample: Some(b as u16),
                        pcm_format: Some(pcm_format),
                    },
                )
            },
            _ => Err(HandlerError::ParseAudioInfoError(String::from_str(text))),
        }
    }

    /// The four fields, if all are set.
    pub fn get_audio_info(&self) -> (r: Result<UnwrappedAudioInfo, Box<HandlerError>>)
        ensures
            match r {
                Ok(info) => {
                    &&& self.is_set()
                    &&& self.channels == Some(info.channels)
                    &&& self.sample_rate == Some(info.sample_rate)
                    &&& self.bits_per_sample == Some(info.bits_per_sample)
                    &&& self.pcm_format == Some(info.pcm_format)
                },
                Err(e) => !self.is_set() && *e == HandlerError::AudioInfoUndefinedError,
            },
    {
        match (self.channels, self.sample_rate, self.bits_per_sample, &self.pcm_format) {
            (Some(channels), Some(sample_rate), Some(bits_per_sample), Some(pcm_format)) => {
                Ok(
                    UnwrappedAudioInfo {
                        channels,
                        sample_rate,
                        bits_per_sample,
                        pcm_format: pcm_format.clone(),
                    },
                )
            },
            _ => Err(Box::new(HandlerError::AudioInfoUndefinedError)),
        }
    }
}

impl Default for AudioInfo {
    fn default() -> (r: AudioInfo)
        ensures
            r.is_unset(),
    {
        AudioInfo::new()
    }
}

pub(crate) fn chars_of(text: &str) -> (r: Vec<char>)
    ensures
        r@ == text@,
{
    let mut r: Vec<char> = Vec::new();
    for c in it: text.chars()
        invariant
            r@ == it.seq().take(it.index() as int),
    {
        r.push(c);
    }
    assert(r@ =~= text@);
    r
}

/// The formats that a session can hold: the initial one, with no field set,
/// or one that a single handshake set as a whole.
pub open spec fn is_session_format(info: AudioInfo) -> bool {
    info.is_unset() || exists|t: Seq<char>| is_handshake(t) && info.describes(t)
}

/// A session's format is never partly set: either no field is set, and
/// `get_audio_info` fails with the undefined-format error, or all four are,
/// taken from one handshake, and `get_audio_info` gives them.
pub proof fn lemma_format_all_or_nothing(info: AudioInfo)
    requires
        is_session_format(info),
    ensures
        info.is_unset() != info.is_set(),
        info.is_set() ==> exists|t: Seq<char>| is_handshake(t) && info.describes(t),
{
}

fn is_space_char(c: char) -> (r: bool)
    ensures
        r == is_space(c),
{
    let u = c as u32;
    (0x09 <= u && u <= 0x0D) || u == 0x20 || u == 0x85 || u == 0xA0 || u == 0x1680 || (0x2000
        <= u && u <= 0x200A) || u == 0x2028 || u == 0x2029 || u == 0x202F || u == 0x205F || u
        == 0x3000
}

fn split_words(s: &Vec<char>) -> (r: Vec<Vec<char>>)
    ensures
        r@.map_values(|w: Vec<char>| w@) == words(s@),
{
    let mut done: Vec<Vec<char>> = Vec::new();
    let mut cur: Vec<char> = Vec::new();
    let mut i: usize = 0;
    while i < s.len()
        invariant
            i <= s@.len(),
            (done@.map_values(|w: Vec<char>| w@), cur@) == scan_words(s@.take(i as int)),
        decreases s@.len() - i,
    {
        let c = s[i];
        assert(s@.take(i + 1).drop_last() =~= s@.take(i as int));
        if is_space_char(c) {
            if cur.len() > 0 {
                let word = cur;
                cur = Vec::new();
                done.push(word);
                assert(done@.map_values(|w: Vec<char>| w@) =~= scan_words(s@.take(i + 1)).0);
            }
        } else {
            cur.push(c);
        }
        i = i + 1;
    }
    assert(s@.take(s@.len() as int) =~= s@);
    if cur.len() > 0 {
        done.push(cur);
        assert(done@.map_values(|w: Vec<char>| w@) =~= words(s@));
    }
    done
}

proof fn lemma_prefix_value(d: Seq<char>, k: int)
    requires
        all_digits(d),
        0 <= k <= d.len(),
    ensures
        decimal_value(d.take(k)) <= decimal_value(d),
    decreases d.len(),
{
    if k < d.len() {
        assert(d.drop_last().take(k) =~= d.take(k));
        lemma_prefix_value(d.drop_last(), k);
    } else {
        assert(d.take(k) =~= d);
    }
}

/// Reads `w` as an unsigned decimal number no larger than `max`.
fn parse_unsigned(w: &Vec<char>, max: u32) -> (r: Option<u32>)
    ensures
        r is Some <==> is_unsigned(w@, max as nat),
        r is Some ==> r->0 as nat == unsigned_value(w@),
{
    let start: usize = if w.len() > 0 && w[0] == '+' {
        1
    } else {
        0
    };
    let ghost d = unsigned_digits(w@);
    assert(d =~= w@.skip(start as int));
    if start == w.len() {
        return None;
    }
    let mut value: u64 = 0;
    let mut i: usize = start;
    while i < w.len()
        invariant
            start <= i <= w@.len(),
            d == w@.skip(start as int),
            d == unsigned_digits(w@),
            all_digits(d.take(i - start)),
            value as nat == decimal_value(d.take(i - start)),
            value <= max,
        decreases w@.len() - i,
    {
        let c = w[i];
        let ghost k = i - start;
        assert(d.take(k + 1).drop_last() =~= d.take(k));
        assert(d[k] == c && d.take(k + 1).last() == c);
        if !('0' <= c && c <= '9') {
            assert(!is_digit(d[k]));
            return None;
        }
        value = value * 10 + (c as u32 - '0' as u32) as u64;
        assert(all_digits(d.take(k + 1)));
        assert(value as nat == decimal_value(d.take(k + 1)));
        if value > max as u64 {
            proof {
                if all_digits(d) {
                    lemma_prefix_value(d, k + 1);
                }
            }
            return None;
        }
        i = i + 1;
    }
    assert(d.take(d.len() as int) =~= d);
    Some(value as u32)
}

} // verus!
