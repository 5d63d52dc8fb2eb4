//! Small shared pieces of the parser: byte classification, whitespace
//! skipping and keyword matching, each verified against the grammar's
//! corresponding predicate.

use vstd::prelude::*;

use crate::grammar::{
    is_digit, is_identifier_char, is_identifier_start, is_space, kw_define_at, kw_else_at,
    kw_global_at, kw_if_at, kw_println_at, kw_while_at, skip_ws,
};

verus! {

pub(crate) fn byte_is_space(b: u8) -> (r: bool)
    ensures
        r == is_space(b),
{
    b == (' ' as u8) || b == ('\t' as u8) || b == ('\n' as u8) || b == ('\r' as u8)
}

pub(crate) fn byte_is_digit(b: u8) -> (r: bool)
    ensures
        r == is_digit(b),
{
    ('0' as u8) <= b && b <= ('9' as u8)
}

pub(crate) fn byte_is_identifier_start(b: u8) -> (r: bool)
    ensures
        r == is_identifier_start(b),
{
    (('A' as u8) <= b && b <= ('Z' as u8)) || (('a' as u8) <= b && b <= ('z' as u8)) || b == ('_'
        as u8)
}

pub(crate) fn byte_is_identifier_char(b: u8) -> (r: bool)
    ensures
        r == is_identifier_char(b),
{
    byte_is_identifier_start(b) || byte_is_digit(b)
}

/// Consumes whitespace: returns the position of the first byte at or
/// after `pos` that is not whitespace.
#[verifier::loop_isolation(false)]
pub fn ws(s: &[u8], pos: usize) -> (r: usize)
    requires
        pos <= s@.len(),
    ensures
        r as int == skip_ws(s@, pos as int),
        pos <= r <= s@.len(),
{
    let mut p = pos;
    while p < s.len() && byte_is_space(s[p])
        invariant
            pos <= p <= s@.len(),
            skip_ws(s@, pos as int) == skip_ws(s@, p as int),
        decreases s@.len() - p,
    {
        p = p + 1;
    }
    p
}

/// `pos + k`, in range because the slice is at least that long.
pub(crate) fn advance(s: &[u8], pos: usize, k: usize) -> (r: usize)
    requires
        pos + k <= s@.len(),
    ensures
        r == pos + k,
{
    let _n = s.len();
    pos + k
}

pub(crate) fn kw_define(s: &[u8], pos: usize) -> (r: bool)
    requires
        pos <= s@.len(),
    ensures
        r == kw_define_at(s@, pos as int),
{
    s.len() - pos >= 6 && s[pos] == ('d' as u8) && s[pos + 1] == ('e' as u8) && s[pos + 2] == ('f'
        as u8) && s[pos + 3] == ('i' as u8) && s[pos + 4] == ('n' as u8) && s[pos + 5] == ('e'
        as u8)
}

pub(crate) fn kw_global(s: &[u8], pos: usize) -> (r: bool)
    requires
        pos <= s@.len(),
    ensures
        r == kw_global_at(s@, pos as int),
{
    s.len() - pos >= 6 && s[pos] == ('g' as u8) && s[pos + 1] == ('l' as u8) && s[pos + 2] == ('o'
        as u8) && s[pos + 3] == ('b' as u8) && s[pos + 4] == ('a' as u8) && s[pos + 5] == ('l'
        as u8)
}

pub(crate) fn kw_if(s: &[u8], pos: usize) -> (r: bool)
    requires
        pos <= s@.len(),
    ensures
        r == kw_if_at(s@, pos as int),
{
    s.len() - pos >= 2 && s[pos] == ('i' as u8) && s[pos + 1] == ('f' as u8)
}

pub(crate) fn kw_else(s: &[u8], pos: usize) -> (r: bool)
    requires
        pos <= s@.len(),
    ensures
        r == kw_else_at(s@, pos as int),
{
    s.len() - pos >= 4 && s[pos] == ('e' as u8) && s[pos + 1] == ('l' as u8) && s[pos + 2] == ('s'
        as u8) && s[pos + 3] == ('e' as u8)
}

pub(crate) fn kw_while(s: &[u8], pos: usize) -> (r: bool)
    requires
        pos <= s@.len(),
    ensures
        r == kw_while_at(s@, pos as int),
{
    s.len() - pos >= 5 && s[pos] == ('w' as u8) && s[pos + 1] == ('h' as u8) && s[pos + 2] == ('i'
        as u8) && s[pos + 3] == ('l' as u8) && s[pos + 4] == ('e' as u8)
}

pub(crate) fn kw_println(s: &[u8], pos: usize) -> (r: bool)
    requires
        pos <= s@.len(),
    ensures
        r == kw_println_at(s@, pos as int),
{
    s.len() - pos >= 7 && s[pos] == ('p' as u8) && s[pos + 1] == ('r' as u8) && s[pos + 2] == ('i'
        as u8) && s[pos + 3] == ('n' as u8) && s[pos + 4] == ('t' as u8) && s[pos + 5] == ('l'
        as u8) && s[pos + 6] == ('n' as u8)
}

} // verus!
