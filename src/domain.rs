use vstd::prelude::*;
use crate::functions::Native;

verus! {

/// A value tree in which a binary primitive is carried by the node itself.
#[derive(Debug, PartialEq, Eq)]
pub enum SpiritValue {
    Const(i64),
    Lit(String),
    Let(String, Box<SpiritValue>, Box<SpiritValue>),
    Function(String, Box<SpiritValue>),
    Apply(Box<SpiritValue>, Box<SpiritValue>),
    Native2(Box<SpiritValue>, Box<SpiritValue>, Native),
    Cond(Box<SpiritValue>, Box<SpiritValue>, Box<SpiritValue>),
}

} // verus!
