//! The typed operand stack of the virtual machine: one stack holds both
//! numeric operands and pending identifiers, each cell tagged with its
//! kind, so no type information is lost between instructions.

use vstd::prelude::*;

verus! {

// StackData wraps primitive values with runtime type hints.
enum StackData {
    Float(u64),
    Identifier(String),
}

/// A stack cell seen mathematically: a double's bit pattern or a name.
pub ghost enum CellModel {
    Float(u64),
    Ident(Seq<char>),
}

impl View for StackData {
    type V = CellModel;

    closed spec fn view(&self) -> CellModel {
        match self {
            StackData::Float(v) => CellModel::Float(*v),
            StackData::Identifier(s) => CellModel::Ident(s@),
        }
    }
}

pub struct Stack {
    data: Vec<StackData>,
}

impl View for Stack {
    type V = Seq<CellModel>;

    closed spec fn view(&self) -> Seq<CellModel> {
        self.data@.map_values(|c: StackData| c@)
    }
}

/// Popping a number: the top cell leaves the stack whatever it was, and
/// the pop succeeds exactly when it was a number.
pub open spec fn pop_float_model(st: Seq<CellModel>) -> (u64, Seq<CellModel>, bool) {
    if st.len() == 0 {
        (0u64, st, false)
    } else {
        match st.last() {
            CellModel::Float(v) => (v, st.drop_last(), true),
            CellModel::Ident(_) => (0u64, st.drop_last(), false),
        }
    }
}

/// Popping an identifier, dually.
pub open spec fn pop_ident_model(st: Seq<CellModel>) -> (Seq<char>, Seq<CellModel>, bool) {
    if st.len() == 0 {
        (Seq::empty(), st, false)
    } else {
        match st.last() {
            CellModel::Float(_) => (Seq::empty(), st.drop_last(), false),
            CellModel::Ident(s) => (s, st.drop_last(), true),
        }
    }
}

// General helpers
impl Stack {
    pub fn new() -> (r: Stack)
        ensures
            r@ == Seq::<CellModel>::empty(),
    {
        let s = Stack { data: vec![] };
        proof {
            assert(s@ =~= Seq::<CellModel>::empty());
        }
        s
    }

    pub fn size(&self) -> (n: usize)
        ensures
            n == self@.len(),
    {
        self.data.len()
    }
}

// Push functions wrap values with internal type information.
impl Stack {
    pub fn push_float(&mut self, value: u64)
        ensures
            final(self)@ == old(self)@.push(CellModel::Float(value)),
    {
        self.data.push(StackData::Float(value));
        proof {
            assert(self@ =~= old(self)@.push(CellModel::Float(value)));
        }
    }

    pub fn push_identifer(&mut self, name: String)
        ensures
            final(self)@ == old(self)@.push(CellModel::Ident(name@)),
    {
        let ghost n = name@;
        self.data.push(StackData::Identifier(name));
        proof {
            assert(self@ =~= old(self)@.push(CellModel::Ident(n)));
        }
    }
}

// Pop functions attempt to remove a value of the given kind from the top
// of the stack; the top cell is consumed either way.
impl Stack {
    pub fn pop_float(&mut self) -> (r: Option<u64>)
        ensures
            ({
                let (v, st, ok) = pop_float_model(old(self)@);
                final(self)@ == st && r == (if ok {
                    Some(v)
                } else {
                    None::<u64>
                })
            }),
    {
        proof {
            if old(self)@.len() > 0 {
                assert(self.data@.drop_last().map_values(|c: StackData| c@) =~= self@.drop_last());
            }
        }
        if let Some(StackData::Float(v)) = self.data.pop() {
            Some(v)
        } else {
            None
        }
    }

    pub fn pop_identifier(&mut self) -> (r: Option<String>)
        ensures
            ({
                let (s, st, ok) = pop_ident_model(old(self)@);
                final(self)@ == st && (if ok {
                    r matches Some(name) && name@ == s
                } else {
                    r is None
                })
            }),
    {
        proof {
            if old(self)@.len() > 0 {
                assert(self.data@.drop_last().map_values(|c: StackData| c@) =~= self@.drop_last());
            }
        }
        if let Some(StackData::Identifier(v)) = self.data.pop() {
            Some(v)
        } else {
            None
        }
    }
}

} // verus!
