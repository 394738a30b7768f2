//! Incremental parser for terminal escape sequences such as `ESC [ < 0 ; 32 ; 64 M`.
use vstd::prelude::*;

verus! {

/// Where the parser stands within a sequence.
#[derive(Debug, Clone, Copy, PartialEq, Eq, Structural)]
pub enum States {
    /// Waiting for the escape byte.
    Esc,
    /// Escape seen, waiting for `[`.
    Square,
    /// Reading arguments up to the command character.
    Args,
}

pub struct EscSeq {
    pub state: States,
    pub current_arg: u32,
    pub is_mouse: bool,
    pub args: Vec<u32>,
    pub command: char,
}

/// The numeric value of an ASCII decimal digit.
pub open spec fn digit_value(c: char) -> u32 {
    ((c as u32) - ('0' as u32)) as u32
}

pub open spec fn is_digit(c: char) -> bool {
    '0' <= c && c <= '9'
}

/// `acc * 10 + d` in 32-bit wrapping arithmetic.
pub open spec fn push_digit(acc: u32, d: u32) -> u32 {
    ((acc * 10 + d) % 0x1_0000_0000) as u32
}

impl EscSeq {
    /// The state of a parser that has seen nothing yet.
    pub open spec fn is_fresh(&self) -> bool {
        &&& self.state == States::Esc
        &&& !self.is_mouse
        &&& self.args@.len() == 0
        &&& self.current_arg == 0
        &&& self.command == ' '
    }

    pub fn new() -> (r: EscSeq)
        ensures
            r.is_fresh(),
    {
        EscSeq { state: States::Esc, is_mouse: false, args: Vec::new(), current_arg: 0, command: ' ' }
    }

    /// Feeds one character; returns true when a whole sequence has been read,
    /// with its command character in `command` and its arguments in `args`.
    pub fn parse_one(&mut self, b: char) -> (done: bool)
        ensures
            match old(self).state {
                States::Esc => {
                    &&& !done
                    &&& final(self).state == (if b == '\x1b' { States::Square } else { States::Esc })
                    &&& final(self).current_arg == old(self).current_arg
                    &&& final(self).is_mouse == old(self).is_mouse
                    &&& final(self).args@ == old(self).args@
                    &&& final(self).command == old(self).command
                },
                States::Square => {
                    &&& !done
                    &&& final(self).state == (if b == '[' { States::Args } else { States::Square })
                    &&& final(self).current_arg == old(self).current_arg
                    &&& final(self).is_mouse == old(self).is_mouse
                    &&& final(self).args@ == old(self).args@
                    &&& final(self).command == old(self).command
                },
                States::Args => {
                    &&& final(self).state == States::Args
                    &&& done == (b != '<' && b != ';' && !is_digit(b))
                    &&& final(self).is_mouse == (old(self).is_mouse || b == '<')
                    &&& final(self).command == (if done { b } else { old(self).command })
                    &&& if b == '<' {
                        &&& final(self).args@ == old(self).args@
                        &&& final(self).current_arg == old(self).current_arg
                    } else if is_digit(b) {
                        &&& final(self).args@ == old(self).args@
                        &&& final(self).current_arg == push_digit(old(self).current_arg, digit_value(b))
                    } else {
                        &&& final(self).args@ == old(self).args@.push(old(self).current_arg)
                        &&& final(self).current_arg == 0
                    }
                },
            },
    {
        match self.state {
            States::Esc => {
                if b == '\x1b' {
                    self.state = States::Square;
                }
            },
            States::Square => {
                if b == '[' {
                    self.state = States::Args;
                }
            },
            States::Args => {
                if b == '<' {
                    self.is_mouse = true;
                } else if b == ';' {
                    self.args.push(self.current_arg);
                    self.current_arg = 0;
                } else if '0' <= b && b <= '9' {
                    let d: u32 = (b as u32) - ('0' as u32);
                    self.current_arg = self.current_arg.wrapping_mul(10).wrapping_add(d);
                } else {
                    self.args.push(self.current_arg);
                    self.current_arg = 0;
                    self.command = b;
                    return true;
                }
            },
        }
        false
    }

    /// Forgets everything read so far.
    pub fn reset(&mut self)
        ensures
            final(self).is_fresh(),
    {
        self.state = States::Esc;
        self.is_mouse = false;
        self.args.clear();
        self.current_arg = 0;
        self.command = ' ';
    }
}

} // verus!
