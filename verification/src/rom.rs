use vstd::prelude::*;

verus! {

/// The program store: an ordered sequence of raw instruction lines, populated
/// once at construction and read-only afterwards. Indexed access is
/// bounds-checked; an out-of-range index is the machine's halt signal, not an
/// error, so `get` reports it as `None` rather than failing.
pub struct Rom {
    pub instructions: Vec<String>,
}

impl View for Rom {
    type V = Seq<Seq<char>>;

    open spec fn view(&self) -> Seq<Seq<char>> {
        self.instructions.deep_view()
    }
}

impl Rom {
    pub fn new(instructions: Vec<String>) -> (r: Rom)
        ensures
            r@ == instructions.deep_view(),
    {
        Rom { instructions }
    }

    pub fn len(&self) -> (n: usize)
        ensures
            n == self@.len(),
    {
        self.instructions.len()
    }

    /// Bounds-checked fetch of the raw line at `index`; `None` exactly when
    /// `index` lies outside the program.
    pub fn get(&self, index: usize) -> (r: Option<String>)
        ensures
            index < self@.len() ==> (r matches Some(line) && line@ == self@[index as int]),
            index >= self@.len() ==> r is None,
    {
        if index < self.instructions.len() {
            Some(self.instructions[index].clone())
        } else {
            None
        }
    }
}

} // verus!
