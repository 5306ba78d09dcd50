//! A text-mode display driver: a fixed 80x25 grid of character cells, each
//! pairing one display byte with one packed colour byte, written through
//! volatile accesses so the stores are never elided, with cursor tracking,
//! soft wrapping and scroll-on-newline.

use vstd::prelude::*;

pub mod screen;
pub mod vga_buffer;

verus! {

/// The smallest possible check that the verifier is awake.
pub fn trivial_assertion() {
    proof {
        assert(1int == 1int);
    }
}

} // verus!
