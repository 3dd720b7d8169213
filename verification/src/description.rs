//! The description of the logo as the upstream source sends it.

use vstd::prelude::*;
use vstd::std_specs::cmp::PartialEqSpecImpl;

verus! {

/// One panel of a character: its colour tokens, in the order of its cells.
pub type PanelView = Seq<Seq<char>>;

/// The whole description: characters, each a sequence of panels.
pub type DescriptionView = Seq<Seq<PanelView>>;

/// A description of the logo: an ordered sequence of characters, each an
/// ordered sequence of panels, each an ordered sequence of colour tokens.
///
/// A description is replaced as a whole and never changed in place. Two
/// descriptions are equal when every token of one equals the token at the same
/// place in the other.
#[derive(Debug)]
pub struct LogoResponse {
    logo: Vec<Vec<Vec<String>>>,
}

impl View for LogoResponse {
    type V = DescriptionView;

    open spec fn view(&self) -> DescriptionView {
        self.cells().deep_view()
    }
}

/// Whether two token sequences hold the same tokens in the same order.
fn panels_equal(a: &Vec<String>, b: &Vec<String>) -> (r: bool)
    ensures
        r == (a.deep_view() == b.deep_view()),
{
    if a.len() != b.len() {
        assert(a.deep_view().len() != b.deep_view().len());
        return false;
    }
    let mut i: usize = 0;
    while i < a.len()
        invariant
            i <= a.len(),
            a.len() == b.len(),
            forall|j: int| 0 <= j < i ==> a[j]@ == b[j]@,
        decreases a.len() - i,
    {
        if a[i] != b[i] {
            assert(a.deep_view()[i as int] != b.deep_view()[i as int]);
            return false;
        }
        i += 1;
    }
    assert(a.deep_view() =~= b.deep_view());
    true
}

/// Whether two characters hold equal panels in the same order.
fn characters_equal(a: &Vec<Vec<String>>, b: &Vec<Vec<String>>) -> (r: bool)
    ensures
        r == (a.deep_view() == b.deep_view()),
{
    if a.len() != b.len() {
        assert(a.deep_view().len() != b.deep_view().len());
        return false;
    }
    let mut i: usize = 0;
    while i < a.len()
        invariant
            i <= a.len(),
            a.len() == b.len(),
            forall|j: int| 0 <= j < i ==> a[j].deep_view() == b[j].deep_view(),
        decreases a.len() - i,
    {
        if !panels_equal(&a[i], &b[i]) {
            assert(a.deep_view()[i as int] != b.deep_view()[i as int]);
            return false;
        }
        i += 1;
    }
    assert(a.deep_view() =~= b.deep_view());
    true
}

/// A copy of a token sequence.
fn copy_panel(a: &Vec<String>) -> (r: Vec<String>)
    ensures
        r.deep_view() == a.deep_view(),
{
    let mut out: Vec<String> = Vec::new();
    let mut i: usize = 0;
    while i < a.len()
        invariant
            i <= a.len(),
            out.len() == i,
            forall|j: int| 0 <= j < i ==> out[j]@ == a[j]@,
        decreases a.len() - i,
    {
        out.push(a[i].clone());
        i += 1;
    }
    assert(out.deep_view() =~= a.deep_view());
    out
}

/// A copy of a character.
fn copy_character(a: &Vec<Vec<String>>) -> (r: Vec<Vec<String>>)
    ensures
        r.deep_view() == a.deep_view(),
{
    let mut out: Vec<Vec<String>> = Vec::new();
    let mut i: usize = 0;
    while i < a.len()
        invariant
            i <= a.len(),
            out.len() == i,
            forall|j: int| 0 <= j < i ==> out[j].deep_view() == a[j].deep_view(),
        decreases a.len() - i,
    {
        out.push(copy_panel(&a[i]));
        i += 1;
    }
    assert(out.deep_view() =~= a.deep_view());
    out
}

impl LogoResponse {
    /// The nested sequences that the description holds.
    pub closed spec fn cells(&self) -> Vec<Vec<Vec<String>>> {
        self.logo
    }

    /// A description made of the given characters.
    pub fn new(logo: Vec<Vec<Vec<String>>>) -> (r: Self)
        ensures
            r@ == logo.deep_view(),
            r.cells() == logo,
    {
        LogoResponse { logo }
    }

    /// The description without any character: what is held before the first
    /// description arrives.
    pub fn empty() -> (r: Self)
        ensures
            r@ == DescriptionView::empty(),
    {
        let r = LogoResponse { logo: Vec::new() };
        assert(r@ =~= DescriptionView::empty());
        r
    }

    /// The characters of the description.
    pub fn logo(&self) -> (r: &Vec<Vec<Vec<String>>>)
        ensures
            r.deep_view() == self@,
            *r == self.cells(),
    {
        &self.logo
    }

    /// The number of characters.
    pub fn len(&self) -> (r: usize)
        ensures
            r == self@.len(),
    {
        self.logo.len()
    }

    /// A copy of the description, equal to it token for token.
    pub fn duplicate(&self) -> (r: Self)
        ensures
            r@ == self@,
    {
        let mut out: Vec<Vec<Vec<String>>> = Vec::new();
        let mut i: usize = 0;
        while i < self.logo.len()
            invariant
                i <= self.logo.len(),
                out.len() == i,
                forall|j: int| 0 <= j < i ==> out[j].deep_view() == self.logo[j].deep_view(),
            decreases self.logo.len() - i,
        {
            out.push(copy_character(&self.logo[i]));
            i += 1;
        }
        assert(out.deep_view() =~= self.logo.deep_view());
        LogoResponse { logo: out }
    }

    /// Whether the two descriptions are equal token for token.
    pub fn same_as(&self, other: &Self) -> (r: bool)
        ensures
            r == (self@ == other@),
    {
        if self.logo.len() != other.logo.len() {
            assert(self@.len() != other@.len());
            return false;
        }
        let mut i: usize = 0;
        while i < self.logo.len()
            invariant
                i <= self.logo.len(),
                self.logo.len() == other.logo.len(),
                forall|j: int| 0 <= j < i ==> self@[j] == other@[j],
            decreases self.logo.len() - i,
        {
            if !characters_equal(&self.logo[i], &other.logo[i]) {
                assert(self@[i as int] != other@[i as int]);
                return false;
            }
            i += 1;
        }
        assert(self@ =~= other@);
        true
    }
}

impl Clone for LogoResponse {
    fn clone(&self) -> (r: Self)
        ensures
            r@ == self@,
    {
        self.duplicate()
    }
}

impl PartialEq for LogoResponse {
    fn eq(&self, other: &Self) -> (r: bool) {
        self.same_as(other)
    }
}

impl Eq for LogoResponse {

}

impl PartialEqSpecImpl for LogoResponse {
    open spec fn obeys_eq_spec() -> bool {
        true
    }

    open spec fn eq_spec(&self, other: &Self) -> bool {
        self@ == other@
    }
}

} // verus!
