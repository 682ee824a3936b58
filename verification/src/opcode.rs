//! The opcode table: for each opcode its mnemonic, length, timing, operands
//! and effect on the flags, keyed by the opcode written in hexadecimal.
use vstd::prelude::*;

use std::collections::HashMap;

verus! {

/// The opcode table, for the unprefixed opcodes and for those that follow
/// the 0xCB prefix.
#[derive(Debug)]
pub struct Opcodes {
    pub unprefixed: HashMap<String, Opcode>,
    pub cbprefixed: HashMap<String, Opcode>,
}

/// One opcode: its mnemonic, its length in bytes, its timing in T-cycles
/// (taken and not taken, for a conditional one), its operands, whether it
/// reads an immediate, and what it does to the flags.
#[derive(Debug)]
pub struct Opcode {
    pub mnemonic: String,
    pub bytes: i64,
    pub cycles: Vec<i64>,
    pub operands: Vec<Operand>,
    pub immediate: bool,
    pub flags: Flags,
}

/// What an opcode does to each flag: "Z", "N", "H" or "C" for a flag set
/// from the result, "0" or "1" for a constant, "-" for a flag left alone.
#[derive(Debug)]
pub struct Flags {
    pub z: String,
    pub n: String,
    pub h: String,
    pub c: String,
}

/// An operand of an opcode.
#[derive(Debug)]
pub struct Operand {
    pub name: String,
    pub immediate: bool,
    pub bytes: Option<i64>,
    pub increment: Option<bool>,
    pub decrement: Option<bool>,
}

/// `parts` joined with one space between each two.
pub open spec fn join_with_spaces(parts: Seq<Seq<char>>) -> Seq<char>
    decreases parts.len(),
{
    if parts.len() == 0 {
        Seq::empty()
    } else if parts.len() == 1 {
        parts[0]
    } else {
        join_with_spaces(parts.drop_last()) + seq![' '] + parts.last()
    }
}

impl Opcode {
    /// The names of the operands, in order.
    pub open spec fn operand_names(&self) -> Seq<Seq<char>> {
        self.operands@.map_values(|o: Operand| o.name@)
    }

    /// The mnemonic, a space, and the names of the operands separated by
    /// spaces, as the opcode is written in a listing.
    pub fn to_display_string(&self) -> (r: String)
        ensures
            r@ == self.mnemonic@ + seq![' '] + join_with_spaces(self.operand_names()),
    {
        proof {
            reveal_strlit(" ");
        }
        let mut s = String::new();
        s.append(self.mnemonic.as_str());
        s.append(" ");
        assert(" "@ =~= seq![' ']);
        let ghost prefix = self.mnemonic@ + seq![' '];
        assert(s@ =~= prefix);
        let mut i: usize = 0;
        while i < self.operands.len()
            invariant
                i <= self.operands.len(),
                prefix == self.mnemonic@ + seq![' '],
                s@ == prefix + join_with_spaces(self.operand_names().take(i as int)),
            decreases self.operands.len() - i,
        {
            let ghost names = self.operand_names();
            assert(names.take(i as int + 1).drop_last() =~= names.take(i as int));
            let ghost before = s@;
            if i > 0 {
                proof {
                    reveal_strlit(" ");
                }
                s.append(" ");
                assert(s@ =~= before + seq![' ']);
            } else {
                assert(names.take(0) =~= Seq::<Seq<char>>::empty());
            }
            s.append(self.operands[i].name.as_str());
            assert(names.take(i as int + 1).last() == self.operands@[i as int].name@);
            assert(join_with_spaces(names.take(i as int + 1)) == (if i == 0 {
                names.take(i as int + 1)[0]
            } else {
                join_with_spaces(names.take(i as int + 1).drop_last()) + seq![' '] + names.take(
                    i as int + 1,
                ).last()
            }));
            assert(s@ =~= prefix + join_with_spaces(names.take(i as int + 1)));
            i = i + 1;
        }
        assert(self.operand_names().take(self.operands.len() as int) =~= self.operand_names());
        s
    }
}

} // verus!
