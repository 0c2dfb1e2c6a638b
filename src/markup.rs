//! A conservative bound on how deeply the elements of an XML text nest,
//! read from its UTF-8 bytes before the text is handed to the XML parser.
use vstd::prelude::*;
use vstd::utf8::encode_utf8;

verus! {

/// The deepest nesting of elements that a text may have to be parsed.
pub const MAX_NESTING: usize = 256;

/// Where the scan stands in the markup.
#[derive(Clone, Copy, PartialEq, Eq, Structural)]
pub enum ScanState {
    /// Character data.
    Text,
    /// Just after `<`.
    AfterLt,
    /// Inside a start tag.
    OpenTag,
    /// Inside a start tag, just after `/`.
    OpenTagSlash,
    /// Inside an attribute value opened by the quote byte.
    Quoted(u8),
    /// Inside an end tag.
    CloseTag,
    /// Just after `<!`.
    AfterBang,
    /// Just after `<!-`.
    AfterBangDash,
    /// Inside a comment, with the number of `-` just seen (at most 2).
    Comment(u8),
    /// Inside a CDATA section, with the number of `]` just seen (at most 2).
    CData(u8),
    /// Inside a processing instruction, with 1 just after `?`.
    Instruction(u8),
}

/// `depth` less one, but not below zero.
pub open spec fn lowered(depth: int) -> int {
    if depth > 0 {
        depth - 1
    } else {
        0
    }
}

/// One byte of the scan: the next state, open-element count and deepest
/// count, or `None` for a declaration (`<!` other than a comment or CDATA),
/// which the scan does not read. An element is counted from its `<` to the
/// end of its end tag or to the `/>` that closes it.
pub open spec fn step(s: ScanState, depth: int, deepest: int, b: u8) -> Option<
    (ScanState, int, int),
> {
    match s {
        ScanState::Text => if b == 60 {
            Some((ScanState::AfterLt, depth, deepest))
        } else {
            Some((ScanState::Text, depth, deepest))
        },
        ScanState::AfterLt => if b == 47 {
            Some((ScanState::CloseTag, lowered(depth), deepest))
        } else if b == 33 {
            Some((ScanState::AfterBang, depth, deepest))
        } else if b == 63 {
            Some((ScanState::Instruction(0), depth, deepest))
        } else {
            Some(
                (
                    ScanState::OpenTag,
                    depth + 1,
                    if depth + 1 > deepest {
                        depth + 1
                    } else {
                        deepest
                    },
                ),
            )
        },
        ScanState::OpenTag => if b == 34 || b == 39 {
            Some((ScanState::Quoted(b), depth, deepest))
        } else if b == 47 {
            Some((ScanState::OpenTagSlash, depth, deepest))
        } else if b == 62 {
            Some((ScanState::Text, depth, deepest))
        } else {
            Some((ScanState::OpenTag, depth, deepest))
        },
        ScanState::OpenTagSlash => if b == 62 {
            Some((ScanState::Text, lowered(depth), deepest))
        } else if b == 34 || b == 39 {
            Some((ScanState::Quoted(b), depth, deepest))
        } else if b == 47 {
            Some((ScanState::OpenTagSlash, depth, deepest))
        } else {
            Some((ScanState::OpenTag, depth, deepest))
        },
        ScanState::Quoted(q) => if b == q {
            Some((ScanState::OpenTag, depth, deepest))
        } else {
            Some((ScanState::Quoted(q), depth, deepest))
        },
        ScanState::CloseTag => if b == 62 {
            Some((ScanState::Text, depth, deepest))
        } else {
            Some((ScanState::CloseTag, depth, deepest))
        },
        ScanState::AfterBang => if b == 45 {
            Some((ScanState::AfterBangDash, depth, deepest))
        } else if b == 91 {
            Some((ScanState::CData(0), depth, deepest))
        } else {
            None
        },
        ScanState::AfterBangDash => if b == 45 {
            Some((ScanState::Comment(0), depth, deepest))
        } else {
            None
        },
        ScanState::Comment(k) => if b == 45 {
            Some((ScanState::Comment(if k >= 2 { 2 } else { (k + 1) as u8 }), depth, deepest))
        } else if b == 62 && k >= 2 {
            Some((ScanState::Text, depth, deepest))
        } else {
            Some((ScanState::Comment(0), depth, deepest))
        },
        ScanState::CData(k) => if b == 93 {
            Some((ScanState::CData(if k >= 2 { 2 } else { (k + 1) as u8 }), depth, deepest))
        } else if b == 62 && k >= 2 {
            Some((ScanState::Text, depth, deepest))
        } else {
            Some((ScanState::CData(0), depth, deepest))
        },
        ScanState::Instruction(k) => if b == 63 {
            Some((ScanState::Instruction(1), depth, deepest))
        } else if b == 62 && k == 1 {
            Some((ScanState::Text, depth, deepest))
        } else {
            Some((ScanState::Instruction(0), depth, deepest))
        },
    }
}

/// The scan of `bytes` from the start of a text.
pub open spec fn scan(bytes: Seq<u8>) -> Option<(ScanState, int, int)>
    decreases bytes.len(),
{
    if bytes.len() == 0 {
        Some((ScanState::Text, 0, 0))
    } else {
        match scan(bytes.drop_last()) {
            None => None,
            Some((s, d, m)) => step(s, d, m, bytes.last()),
        }
    }
}

/// True when the scan reads all of `text` and no element in it is nested
/// deeper than [`MAX_NESTING`].
pub open spec fn nesting_within_limit(text: Seq<char>) -> bool {
    scan(encode_utf8(text)) matches Some((_, _, m)) && m <= MAX_NESTING
}

/// A scan that fails stays failed, and the deepest count never falls.
proof fn lemma_scan_prefix(bytes: Seq<u8>, i: int)
    requires
        0 <= i <= bytes.len(),
    ensures
        scan(bytes.subrange(0, i)) is None ==> scan(bytes) is None,
        scan(bytes) is Some ==> 0 <= scan(bytes)->Some_0.1 <= scan(bytes)->Some_0.2,
        scan(bytes) is Some ==> scan(bytes.subrange(0, i)) is Some && scan(bytes.subrange(0, i))->Some_0.2
            <= scan(bytes)->Some_0.2,
    decreases bytes.len(),
{
    if bytes.len() == 0 {
    } else if i == bytes.len() {
        assert(bytes.subrange(0, i) =~= bytes);
        lemma_scan_prefix(bytes.drop_last(), 0);
    } else {
        lemma_scan_prefix(bytes.drop_last(), i);
        assert(bytes.drop_last().subrange(0, i) =~= bytes.subrange(0, i));
    }
}

/// One byte of the scan, for counts within the limit.
fn scan_step(s: ScanState, depth: usize, deepest: usize, b: u8) -> (r: Option<
    (ScanState, usize, usize),
>)
    requires
        depth <= deepest <= MAX_NESTING,
    ensures
        match r {
            Some((t, d, m)) => step(s, depth as int, deepest as int, b) == Some(
                (t, d as int, m as int),
            ),
            None => step(s, depth as int, deepest as int, b) is None,
        },
{
    let lowered = if depth > 0 {
        depth - 1
    } else {
        0
    };
    match s {
        ScanState::Text => if b == 60 {
            Some((ScanState::AfterLt, depth, deepest))
        } else {
            Some((ScanState::Text, depth, deepest))
        },
        ScanState::AfterLt => if b == 47 {
            Some((ScanState::CloseTag, lowered, deepest))
        } else if b == 33 {
            Some((ScanState::AfterBang, depth, deepest))
        } else if b == 63 {
            Some((ScanState::Instruction(0), depth, deepest))
        } else {
            Some(
                (
                    ScanState::OpenTag,
                    depth + 1,
                    if depth + 1 > deepest {
                        depth + 1
                    } else {
                        deepest
                    },
                ),
            )
        },
        ScanState::OpenTag => if b == 34 || b == 39 {
            Some((ScanState::Quoted(b), depth, deepest))
        } else if b == 47 {
            Some((ScanState::OpenTagSlash, depth, deepest))
        } else if b == 62 {
            Some((ScanState::Text, depth, deepest))
        } else {
            Some((ScanState::OpenTag, depth, deepest))
        },
        ScanState::OpenTagSlash => if b == 62 {
            Some((ScanState::Text, lowered, deepest))
        } else if b == 34 || b == 39 {
            Some((ScanState::Quoted(b), depth, deepest))
        } else if b == 47 {
            Some((ScanState::OpenTagSlash, depth, deepest))
        } else {
            Some((ScanState::OpenTag, depth, deepest))
        },
        ScanState::Quoted(q) => if b == q {
            Some((ScanState::OpenTag, depth, deepest))
        } else {
            Some((ScanState::Quoted(q), depth, deepest))
        },
        ScanState::CloseTag => if b == 62 {
            Some((ScanState::Text, depth, deepest))
        } else {
            Some((ScanState::CloseTag, depth, deepest))
        },
        ScanState::AfterBang => if b == 45 {
            Some((ScanState::AfterBangDash, depth, deepest))
        } else if b == 91 {
            Some((ScanState::CData(0), depth, deepest))
        } else {
            None
        },
        ScanState::AfterBangDash => if b == 45 {
            Some((ScanState::Comment(0), depth, deepest))
        } else {
            None
        },
        ScanState::Comment(k) => if b == 45 {
            Some((ScanState::Comment(if k >= 2 { 2 } else { k + 1 }), depth, deepest))
        } else if b == 62 && k >= 2 {
            Some((ScanState::Text, depth, deepest))
        } else {
            Some((ScanState::Comment(0), depth, deepest))
        },
        ScanState::CData(k) => if b == 93 {
            Some((ScanState::CData(if k >= 2 { 2 } else { k + 1 }), depth, deepest))
        } else if b == 62 && k >= 2 {
            Some((ScanState::Text, depth, deepest))
        } else {
            Some((ScanState::CData(0), depth, deepest))
        },
        ScanState::Instruction(k) => if b == 63 {
            Some((ScanState::Instruction(1), depth, deepest))
        } else if b == 62 && k == 1 {
            Some((ScanState::Text, depth, deepest))
        } else {
            Some((ScanState::Instruction(0), depth, deepest))
        },
    }
}

/// True when `text` holds no declaration other than comments and CDATA
/// sections and nests its elements at most [`MAX_NESTING`] deep.
pub fn within_nesting_limit(text: &str) -> (r: bool)
    ensures
        r == nesting_within_limit(text@),
{
    let bytes = text.as_bytes();
    let n = bytes.len();
    let mut state = ScanState::Text;
    let mut depth: usize = 0;
    let mut deepest: usize = 0;
    let mut i: usize = 0;
    assert(bytes@.subrange(0, 0) =~= Seq::<u8>::empty());
    while i < n
        invariant
            bytes@ == encode_utf8(text@),
            n == bytes@.len(),
            i <= n,
            depth <= deepest <= MAX_NESTING,
            scan(bytes@.subrange(0, i as int)) == Some((state, depth as int, deepest as int)),
        decreases n - i,
    {
        assert(bytes@.subrange(0, i + 1).drop_last() =~= bytes@.subrange(0, i as int));
        match scan_step(state, depth, deepest, bytes[i]) {
            None => {
                proof {
                    lemma_scan_prefix(bytes@, i + 1);
                }
                return false;
            },
            Some((s, d, m)) => {
                if m > MAX_NESTING {
                    proof {
                        lemma_scan_prefix(bytes@, i + 1);
                    }
                    return false;
                }
                state = s;
                depth = d;
                deepest = m;
            },
        }
        i += 1;
    }
    assert(bytes@.subrange(0, n as int) =~= bytes@);
    true
}

} // verus!
