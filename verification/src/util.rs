//! Colours for the prefixes of forwarded output.

use vstd::prelude::*;
use rand::seq::IndexedRandom;
use yansi::Paint;

verus! {

/// A colour of the terminal.
#[derive(Clone, Copy, Debug, PartialEq, Eq)]
pub enum Colour {
    Green,
    Cyan,
    Blue,
    Yellow,
    Red,
    Magenta,
    Black,
    Rgb(u8, u8, u8),
}

/// The colours from which prefixes are picked, as a specification.
pub open spec fn palette() -> Seq<Colour> {
    seq![
        Colour::Green,
        Colour::Cyan,
        Colour::Blue,
        Colour::Yellow,
        Colour::Red,
        Colour::Rgb(255, 165, 0),
        Colour::Rgb(255, 99, 71),
        Colour::Rgb(0, 153, 255),
        Colour::Rgb(153, 102, 51),
        Colour::Rgb(102, 153, 0),
        Colour::Rgb(255, 153, 255),
        Colour::Magenta,
    ]
}

/// The colours from which prefixes are picked.
pub fn colours() -> (list: Vec<Colour>)
    ensures
        list@ == palette(),
{
    let mut list: Vec<Colour> = Vec::new();
    list.push(Colour::Green);
    list.push(Colour::Cyan);
    list.push(Colour::Blue);
    list.push(Colour::Yellow);
    list.push(Colour::Red);
    list.push(Colour::Rgb(255, 165, 0));
    list.push(Colour::Rgb(255, 99, 71));
    list.push(Colour::Rgb(0, 153, 255));
    list.push(Colour::Rgb(153, 102, 51));
    list.push(Colour::Rgb(102, 153, 0));
    list.push(Colour::Rgb(255, 153, 255));
    list.push(Colour::Magenta);
    assert(list@ =~= palette());
    list
}

/// `IndexedRandom::choose` on a slice, with the thread's generator: one of
/// the elements, whichever; none where there is no element.
#[verifier::external_body]
fn pick_one(list: &Vec<Colour>) -> (pick: Option<Colour>)
    ensures
        list@.len() == 0 ==> pick is None,
        list@.len() > 0 ==> pick is Some && list@.contains(pick.unwrap()),
{
    list.choose(&mut rand::rng()).copied()
}

/// One of the colours of the palette, picked at random.
pub fn random_color() -> (colour: Colour)
    ensures
        palette().contains(colour),
{
    let list = colours();
    picked_or_black(pick_one(&list))
}

/// The colour that was picked, or black where none was.
pub fn picked_or_black(pick: Option<Colour>) -> (colour: Colour)
    ensures
        colour == (match pick {
            Some(c) => c,
            None => Colour::Black,
        }),
{
    match pick {
        Some(colour) => colour,
        None => Colour::Black,
    }
}

/// Whether `painted` is `plain` with something before and behind it.
pub open spec fn wraps(painted: Seq<char>, plain: Seq<char>) -> bool {
    exists|before: Seq<char>, after: Seq<char>| painted == #[trigger] (before + plain + after)
}

/// Every text wraps itself.
pub proof fn lemma_wraps_itself(plain: Seq<char>)
    ensures
        wraps(plain, plain),
{
    let none = Seq::<char>::empty();
    assert(plain =~= none + plain + none);
}

/// `Paint::paint` and the `Display` of what it gives: `text` in the colour
/// `colour`. Whether the colour shows depends on what the process has
/// switched on; either way the text stands in the result as it is, between
/// the marks that switch the colour on and off where it shows.
#[verifier::external_body]
pub(crate) fn paint(colour: Colour, text: &str) -> (painted: String)
    ensures
        wraps(painted@, text@),
{
    let c = match colour {
        Colour::Green => yansi::Color::Green,
        Colour::Cyan => yansi::Color::Cyan,
        Colour::Blue => yansi::Color::Blue,
        Colour::Yellow => yansi::Color::Yellow,
        Colour::Red => yansi::Color::Red,
        Colour::Magenta => yansi::Color::Magenta,
        Colour::Black => yansi::Color::Black,
        Colour::Rgb(r, g, b) => yansi::Color::Rgb(r, g, b),
    };
    text.paint(c).to_string()
}

} // verus!
