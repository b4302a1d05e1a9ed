//! Serial-terminal echo for human users, kept apart from the protocol path.
//! A host program neither needs nor sees it: a machine sender emits no
//! backspaces, and the newline echo collapses to an empty line the framer
//! discards.

use vstd::prelude::*;

verus! {

/// The echo of one inbound byte: LF becomes CR LF, so Enter shows as a line
/// break; backspace or DEL over a non-empty line being assembled becomes
/// space + backspace, erasing the glyph the terminal already cursored back
/// over. Nothing is echoed unless `tx_idle` (no protocol line in flight, so
/// echo bytes cannot land inside one). `line_len` is the framer's line length
/// before the byte is fed.
pub fn echo(b: u8, line_len: usize, tx_idle: bool) -> (r: Vec<u8>)
    ensures
        r@ == (if !tx_idle {
            Seq::<u8>::empty()
        } else if b == 0x0au8 {
            seq![0x0du8, 0x0au8]
        } else if (b == 0x08u8 || b == 0x7fu8) && line_len > 0 {
            seq![0x20u8, 0x08u8]
        } else {
            Seq::<u8>::empty()
        }),
{
    let mut r: Vec<u8> = Vec::new();
    if !tx_idle {
        return r;
    }
    if b == 0x0au8 {
        r.push(0x0du8);
        r.push(0x0au8);
    } else if (b == 0x08u8 || b == 0x7fu8) && line_len > 0 {
        r.push(0x20u8);
        r.push(0x08u8);
    }
    proof {
        if b == 0x0au8 {
            assert(r@ =~= seq![0x0du8, 0x0au8]);
        } else if (b == 0x08u8 || b == 0x7fu8) && line_len > 0 {
            assert(r@ =~= seq![0x20u8, 0x08u8]);
        } else {
            assert(r@ =~= Seq::<u8>::empty());
        }
    }
    r
}

} // verus!
