//! The settings store: one persisted value, the watched replay directory.
//!
//! The on-disk form is a one-key structured-text document. When no directory
//! has been chosen the document is empty; otherwise it holds a single line
//! `replays_path = "<path>"`. Encoding and decoding are verified to round
//! trip for every valid path.

use vstd::prelude::*;

verus! {

/// Byte values of the characters the persisted form is built from.
pub const QUOTE: u8 = 34;

pub const BACKSLASH: u8 = 92;

pub const NEWLINE: u8 = 10;

/// A path byte the persisted form can carry verbatim: printable, and neither
/// the quote that closes the value nor a backslash (no escape sequences are
/// produced, so none are accepted).
pub open spec fn valid_path_byte(c: u8) -> bool {
    c != QUOTE && c != BACKSLASH && c >= 0x20
}

/// A path the persisted form can carry verbatim.
pub open spec fn valid_path(p: Seq<u8>) -> bool {
    forall|i: int| 0 <= i < p.len() ==> valid_path_byte(p[i])
}

/// The bytes of `replays_path = "` that open the one recognized line.
pub open spec fn key_prefix() -> Seq<u8> {
    seq![
        114u8, 101u8, 112u8, 108u8, 97u8, 121u8, 115u8, 95u8, 112u8, 97u8, 116u8, 104u8, 32u8, 61u8, 32u8,
        QUOTE,
    ]
}

/// The persisted settings document for a given (optional) watched directory:
/// empty when none is set, one key/value line otherwise.
pub open spec fn encode_spec(path: Option<Seq<u8>>) -> Seq<u8> {
    match path {
        Option::None => Seq::empty(),
        Option::Some(p) => key_prefix() + p + seq![QUOTE, NEWLINE],
    }
}

/// Reading the persisted document back: `None` means the document is
/// malformed; otherwise the watched directory it records.
pub open spec fn decode_spec(b: Seq<u8>) -> Option<Option<Seq<u8>>> {
    if b.len() == 0 {
        Option::Some(Option::None)
    } else if b.len() >= key_prefix().len() + 2 && b.subrange(0, key_prefix().len() as int)
        == key_prefix() && b[b.len() - 1] == NEWLINE && b[b.len() - 2] == QUOTE && valid_path(
        b.subrange(key_prefix().len() as int, b.len() - 2),
    ) {
        Option::Some(Option::Some(b.subrange(key_prefix().len() as int, b.len() - 2)))
    } else {
        Option::None
    }
}

/// The single persisted value: the directory watched for new replay files,
/// if one has been chosen.
#[derive(Clone, Debug, PartialEq, Eq)]
pub struct Settings {
    pub replays_path: Option<Vec<u8>>,
}

impl Settings {
    /// The watched directory as a mathematical value.
    pub open spec fn path_view(&self) -> Option<Seq<u8>> {
        match self.replays_path {
            Option::None => Option::None,
            Option::Some(p) => Option::Some(p@),
        }
    }

    /// The settings can be persisted: the recorded path, if any, survives a
    /// round trip through the on-disk form.
    pub open spec fn wf(&self) -> bool {
        match self.path_view() {
            Option::None => true,
            Option::Some(p) => valid_path(p),
        }
    }
}

impl Default for Settings {
    /// First-run settings: no directory chosen yet.
    fn default() -> (s: Settings)
        ensures
            s.path_view() is None,
            s.wf(),
    {
        Settings { replays_path: Option::None }
    }
}

/// Whether every byte of `p` can be carried verbatim by the persisted form.
pub fn is_valid_path(p: &Vec<u8>) -> (b: bool)
    ensures
        b == valid_path(p@),
{
    let mut i: usize = 0;
    while i < p.len()
        invariant
            0 <= i <= p@.len(),
            forall|j: int| 0 <= j < i ==> valid_path_byte(p@[j]),
        decreases p@.len() - i,
    {
        let c = p[i];
        if c == QUOTE || c == BACKSLASH || c < 0x20 {
            return false;
        }
        i = i + 1;
    }
    true
}

/// The opening bytes of the one recognized line, as a runtime value.
fn key_prefix_bytes() -> (v: Vec<u8>)
    ensures
        v@ == key_prefix(),
{
    let mut v: Vec<u8> = Vec::new();
    v.push(114u8);
    v.push(101u8);
    v.push(112u8);
    v.push(108u8);
    v.push(97u8);
    v.push(121u8);
    v.push(115u8);
    v.push(95u8);
    v.push(112u8);
    v.push(97u8);
    v.push(116u8);
    v.push(104u8);
    v.push(32u8);
    v.push(61u8);
    v.push(32u8);
    v.push(QUOTE);
    proof {
        assert(v@ =~= key_prefix());
    }
    v
}

/// Serializes settings to the bytes of the persisted document. Pure: the
/// caller writes them to the per-user configuration file, overwriting any
/// previous content.
pub fn save_settings(s: &Settings) -> (out: Vec<u8>)
    requires
        s.wf(),
    ensures
        out@ == encode_spec(s.path_view()),
{
    match &s.replays_path {
        Option::None => Vec::new(),
        Option::Some(p) => {
            let mut out = key_prefix_bytes();
            let mut i: usize = 0;
            while i < p.len()
                invariant
                    0 <= i <= p@.len(),
                    out@ == key_prefix() + p@.subrange(0, i as int),
                decreases p@.len() - i,
            {
                out.push(p[i]);
                proof {
                    assert(key_prefix() + p@.subrange(0, i as int + 1) =~= (key_prefix()
                        + p@.subrange(0, i as int)).push(p@[i as int]));
                }
                i = i + 1;
            }
            out.push(QUOTE);
            out.push(NEWLINE);
            proof {
                assert(p@.subrange(0, p@.len() as int) =~= p@);
                assert(out@ =~= key_prefix() + p@ + seq![QUOTE, NEWLINE]);
            }
            out
        },
    }
}

/// Parses the bytes of a persisted document. Returns `None` when the
/// document is malformed, and never anything else on such input: the caller
/// decides what a malformed document falls back to.
pub fn decode_settings(bytes: &Vec<u8>) -> (r: Option<Settings>)
    ensures
        match r {
            Option::Some(s) => decode_spec(bytes@) == Option::Some(s.path_view()) && s.wf(),
            Option::None => decode_spec(bytes@) is None,
        },
{
    if bytes.len() == 0 {
        return Option::Some(Settings { replays_path: Option::None });
    }
    let prefix = key_prefix_bytes();
    if bytes.len() < prefix.len() + 2 {
        return Option::None;
    }
    let mut i: usize = 0;
    while i < prefix.len()
        invariant
            0 <= i <= prefix@.len(),
            prefix@ == key_prefix(),
            bytes@.len() >= prefix@.len() + 2,
            forall|j: int| 0 <= j < i ==> bytes@[j] == prefix@[j],
        decreases prefix@.len() - i,
    {
        if bytes[i] != prefix[i] {
            return Option::None;
        }
        i = i + 1;
    }
    proof {
        assert(bytes@.subrange(0, key_prefix().len() as int) =~= key_prefix());
    }
    if bytes[bytes.len() - 1] != NEWLINE || bytes[bytes.len() - 2] != QUOTE {
        return Option::None;
    }
    let mut path: Vec<u8> = Vec::new();
    let end = bytes.len() - 2;
    let mut j: usize = prefix.len();
    while j < end
        invariant
            key_prefix().len() <= j <= end,
            end == bytes@.len() - 2,
            bytes@.len() >= key_prefix().len() + 2,
            path@ == bytes@.subrange(key_prefix().len() as int, j as int),
            valid_path(path@),
        decreases end - j,
    {
        let c = bytes[j];
        if c == QUOTE || c == BACKSLASH || c < 0x20 {
            proof {
                let mid = bytes@.subrange(key_prefix().len() as int, bytes@.len() - 2);
                assert(mid[j - key_prefix().len()] == bytes@[j as int]);
                assert(!valid_path(mid));
            }
            return Option::None;
        }
        path.push(c);
        proof {
            assert(bytes@.subrange(key_prefix().len() as int, j as int + 1) =~= bytes@.subrange(
                key_prefix().len() as int,
                j as int,
            ).push(bytes@[j as int]));
        }
        j = j + 1;
    }
    proof {
        assert(path@ =~= bytes@.subrange(key_prefix().len() as int, bytes@.len() - 2));
    }
    Option::Some(Settings { replays_path: Option::Some(path) })
}

/// Loading the settings store, given what the configuration file held:
/// `None` when the file is absent. A missing file yields the defaults and
/// asks the caller to persist them (the returned flag); a malformed file
/// yields the defaults and leaves the file alone — startup is never blocked
/// on bad configuration, and only an explicit save writes.
pub fn load_settings(contents: Option<&Vec<u8>>) -> (r: (Settings, bool))
    ensures
        r.0.wf(),
        match contents {
            Option::None => r.0.path_view() is None && r.1,
            Option::Some(c) => !r.1 && (match decode_spec(c@) {
                Option::Some(pv) => r.0.path_view() == pv,
                Option::None => r.0.path_view() is None,
            }),
        },
{
    match contents {
        Option::None => (Settings::default(), true),
        Option::Some(c) => {
            match decode_settings(c) {
                Option::Some(s) => (s, false),
                Option::None => (Settings::default(), false),
            }
        },
    }
}

/// Saving and then loading returns exactly the settings that were saved:
/// the persisted document decodes to the path it was encoded from, for every
/// valid path (and for the empty, no-directory document alike).
pub proof fn lemma_save_load_round_trip(path: Option<Seq<u8>>)
    requires
        path matches Option::Some(p) ==> valid_path(p),
    ensures
        decode_spec(encode_spec(path)) == Option::Some(path),
{
    match path {
        Option::None => {
        }
        Option::Some(p) => {
            let e = encode_spec(path);
            assert(e.len() == key_prefix().len() + p.len() + 2);
            assert(e.subrange(0, key_prefix().len() as int) =~= key_prefix());
            assert(e[e.len() - 1] == NEWLINE);
            assert(e[e.len() - 2] == QUOTE);
            assert(e.subrange(key_prefix().len() as int, e.len() - 2) =~= p);
        }
    }
}

/// Loading twice in a row yields the same settings: after a missing file is
/// replaced by the persisted defaults, reading that document back yields the
/// defaults again.
pub proof fn lemma_load_defaults_idempotent()
    ensures
        decode_spec(encode_spec(Option::None)) == Option::Some(Option::<Seq<u8>>::None),
{
    lemma_save_load_round_trip(Option::None);
}

} // verus!
