//! Messages and the lines that they are made of.
use vstd::prelude::*;
use vstd::string::*;

use crate::decimal::{decimal, push_decimal};
use crate::double::Double;
use crate::fixed::{fixed, push_fixed};
use crate::text::{joined, texts};

verus! {

/// A button under a message, with the data that a tap on it sends back.
#[derive(Debug)]
pub struct Button {
    pub label: String,
    pub data: String,
}

/// A message to send.
#[derive(Debug)]
pub struct OutMessage {
    pub text: String,
    pub markdown: bool,
    pub button: Option<Button>,
}

impl OutMessage {
    /// Whether the message says this, without a button.
    pub open spec fn says(self, text: Seq<char>, markdown: bool) -> bool {
        self.text@ == text && self.markdown == markdown && self.button is None
    }

    /// Whether the message says this, in Markdown and with this button.
    pub open spec fn offers(self, text: Seq<char>, label: Seq<char>, data: Seq<char>) -> bool {
        &&& self.text@ == text
        &&& self.markdown
        &&& self.button matches Some(b)
        &&& b.label@ == label
        &&& b.data@ == data
    }

    /// A message in plain text.
    pub fn plain(text: String) -> (r: OutMessage)
        ensures
            r.says(text@, false),
    {
        OutMessage { text, markdown: false, button: None }
    }

    /// A message in Markdown.
    pub fn marked(text: String) -> (r: OutMessage)
        ensures
            r.says(text@, true),
    {
        OutMessage { text, markdown: true, button: None }
    }

    /// A message in Markdown with a button.
    pub fn with_button(text: String, label: &str, data: String) -> (r: OutMessage)
        ensures
            r.offers(text@, label@, data@),
    {
        OutMessage {
            text,
            markdown: true,
            button: Some(Button { label: String::from_str(label), data }),
        }
    }
}

/// Lines with one more, if there is one.
pub open spec fn maybe(lines: Seq<Seq<char>>, line: Option<Seq<char>>) -> Seq<Seq<char>> {
    match line {
        Some(l) => lines.push(l),
        None => lines,
    }
}

/// A number with `d` decimals between two pieces of text.
pub open spec fn number_text(label: Seq<char>, x: Double, d: nat, end: Seq<char>) -> Seq<char> {
    label + fixed(x, d) + end
}

pub open spec fn number_line(label: Seq<char>, x: Option<Double>, d: nat, end: Seq<char>) -> Option<
    Seq<char>,
> {
    match x {
        Some(v) => Some(number_text(label, v, d, end)),
        None => None,
    }
}

pub open spec fn count_line(label: Seq<char>, n: Option<u64>) -> Option<Seq<char>> {
    match n {
        Some(v) => Some(label + decimal(v as nat)),
        None => None,
    }
}

/// A line for a flag that is known.
pub open spec fn flag_line(label: Seq<char>, b: Option<bool>, yes: Seq<char>, no: Seq<char>) -> Option<
    Seq<char>,
> {
    match b {
        Some(v) => Some(
            label + (if v {
                yes
            } else {
                no
            }),
        ),
        None => None,
    }
}

/// Lines followed by one bulleted line for each item.
pub open spec fn bulleted(lines: Seq<Seq<char>>, items: Seq<Seq<char>>) -> Seq<Seq<char>>
    decreases items.len(),
{
    if items.len() == 0 {
        lines
    } else {
        bulleted(lines, items.drop_last()).push("• "@ + items.last())
    }
}

/// Lines put under each other.
pub open spec fn under_each_other(lines: Seq<Seq<char>>) -> Seq<char> {
    joined(lines, "\n"@)
}

/// Adds a line.
pub fn add_line(lines: &mut Vec<String>, line: String)
    ensures
        texts(final(lines)@) == texts(old(lines)@).push(line@),
{
    lines.push(line);
    assert(texts(lines@) =~= texts(old(lines)@).push(line@));
}

/// A number with `d` decimals between two pieces of text.
pub fn numbered(label: &str, x: Double, d: usize, end: &str) -> (r: String)
    requires
        d <= 4,
    ensures
        r@ == number_text(label@, x, d as nat, end@),
{
    let mut text = String::from_str(label);
    push_fixed(&mut text, x, d);
    text.append(end);
    text
}

/// Adds a line for a number that is known.
pub fn add_number(lines: &mut Vec<String>, label: &str, x: Option<Double>, d: usize, end: &str)
    requires
        d <= 4,
    ensures
        texts(final(lines)@) == maybe(
            texts(old(lines)@),
            number_line(label@, x, d as nat, end@),
        ),
{
    match x {
        Some(v) => {
            add_line(lines, numbered(label, v, d, end));
        },
        None => {},
    }
}

/// Adds a line for a count that is known.
pub fn add_count(lines: &mut Vec<String>, label: &str, n: Option<u64>)
    ensures
        texts(final(lines)@) == maybe(texts(old(lines)@), count_line(label@, n)),
{
    match n {
        Some(v) => {
            let mut text = String::from_str(label);
            push_decimal(&mut text, v as u128);
            add_line(lines, text);
        },
        None => {},
    }
}

/// Adds a line for a flag that is known.
pub fn add_flag(lines: &mut Vec<String>, label: &str, b: Option<bool>, yes: &str, no: &str)
    ensures
        texts(final(lines)@) == maybe(texts(old(lines)@), flag_line(label@, b, yes@, no@)),
{
    match b {
        Some(v) => {
            let mut text = String::from_str(label);
            if v {
                text.append(yes);
            } else {
                text.append(no);
            }
            add_line(lines, text);
        },
        None => {},
    }
}

/// Adds a bulleted line for each item.
pub fn add_bullets(lines: &mut Vec<String>, items: &Vec<String>)
    ensures
        texts(final(lines)@) == bulleted(texts(old(lines)@), texts(items@)),
{
    let mut i: usize = 0;
    assert(texts(items@).take(0) =~= Seq::<Seq<char>>::empty());
    while i < items.len()
        invariant
            i <= items@.len(),
            texts(lines@) == bulleted(texts(old(lines)@), texts(items@).take(i as int)),
        decreases items@.len() - i,
    {
        let mut text = String::from_str("• ");
        text.append(items[i].as_str());
        add_line(lines, text);
        proof {
            let more = texts(items@).take(i + 1);
            assert(more.drop_last() =~= texts(items@).take(i as int));
            assert(more.last() == items@[i as int]@);
        }
        i = i + 1;
    }
    assert(texts(items@).take(i as int) =~= texts(items@));
}

} // verus!
