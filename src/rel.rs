use vstd::prelude::*;

verus! {

/// A link relation type, such as `http://webfinger.net/rel/profile-page`.
///
/// The value is kept exactly as given: two relation types are equal when their
/// text is equal.
#[derive(Debug)]
pub struct Rel {
    text: String,
}

impl View for Rel {
    type V = Seq<char>;

    closed spec fn view(&self) -> Seq<char> {
        self.text@
    }
}

impl Rel {
    /// A relation type with the given text.
    pub fn new(text: &str) -> (r: Rel)
        ensures
            r@ == text@,
    {
        Rel { text: text.to_owned() }
    }

    /// The text of the relation type.
    pub fn as_str(&self) -> (r: &str)
        ensures
            r@ == self@,
    {
        self.text.as_str()
    }

    /// The relation type as an owned string.
    pub fn into_inner(self) -> (r: String)
        ensures
            r@ == self@,
    {
        self.text
    }
}

impl Clone for Rel {
    fn clone(&self) -> (r: Rel)
        ensures
            r@ == self@,
    {
        Rel { text: self.text.clone() }
    }
}

impl PartialEq for Rel {
    fn eq(&self, other: &Rel) -> (r: bool) {
        self.text == other.text
    }
}

impl vstd::std_specs::cmp::PartialEqSpecImpl for Rel {
    open spec fn obeys_eq_spec() -> bool {
        true
    }

    open spec fn eq_spec(&self, other: &Rel) -> bool {
        self@ == other@
    }
}

impl Eq for Rel {
}

} // verus!
