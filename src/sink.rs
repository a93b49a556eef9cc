use vstd::prelude::*;
use vstd::string::to_string_from_display_ensures_for_str;
use crate::category::{category_of, category_spec, SyntaxCategory};
use iced_x86::{FormatterOutput, FormatterTextKind};

verus! {

/// A fragment of rendered text as a mathematical value.
pub type FragmentView = (Seq<char>, SyntaxCategory);

/// The token sink: the fragments written for the instruction being formatted,
/// in emission order.
pub struct Output {
    pub vec: Vec<(String, SyntaxCategory)>,
}

/// The mathematical value of one stored fragment.
pub open spec fn fragment_view(f: (String, SyntaxCategory)) -> FragmentView {
    (f.0@, f.1)
}

impl View for Output {
    type V = Seq<FragmentView>;

    open spec fn view(&self) -> Seq<FragmentView> {
        self.vec@.map_values(|f: (String, SyntaxCategory)| fragment_view(f))
    }
}

impl Output {
    /// An empty sink.
    pub fn new() -> (r: Self)
        ensures
            r@ == Seq::<FragmentView>::empty(),
    {
        let r = Output { vec: Vec::new() };
        assert(r@ =~= Seq::<FragmentView>::empty());
        r
    }

    /// Forgets every fragment held.
    pub fn clear(&mut self)
        ensures
            final(self)@ == Seq::<FragmentView>::empty(),
    {
        self.vec.clear();
        assert(self@ =~= Seq::<FragmentView>::empty());
    }

    /// Adds a fragment after those already held.
    pub fn append(&mut self, text: String, category: SyntaxCategory)
        ensures
            final(self)@ == old(self)@.push((text@, category)),
    {
        self.vec.push((text, category));
        assert(self@ =~= old(self)@.push((text@, category)));
    }

    /// The fragments held, in emission order; the sink keeps them.
    pub fn drain(&self) -> (r: &Vec<(String, SyntaxCategory)>)
        ensures
            r@.map_values(|f: (String, SyntaxCategory)| fragment_view(f)) == self@,
    {
        &self.vec
    }
}

impl FormatterOutput for Output {
    /// Adds `text`, tagged with the category of `kind`, after the fragments held.
    fn write(&mut self, text: &str, kind: FormatterTextKind)
        ensures
            final(self)@ == old(self)@.push((text@, category_spec(kind))),
    {
        let category = category_of(kind);
        let t = text.to_string();
        proof {
            to_string_from_display_ensures_for_str(text, t);
        }
        self.append(t, category);
    }
}

} // verus!
