//! A single news item and the strings derived from it.

use vstd::prelude::*;

verus! {

/// Address of the discussion page of an item, up to the item's id.
pub const HN_URL_DISCUSSION: &'static str = "https://news.ycombinator.com/item?id=";

/// The character that stands for the decimal digit `d`.
pub open spec fn digit_char(d: nat) -> char {
    if d == 0 {
        '0'
    } else if d == 1 {
        '1'
    } else if d == 2 {
        '2'
    } else if d == 3 {
        '3'
    } else if d == 4 {
        '4'
    } else if d == 5 {
        '5'
    } else if d == 6 {
        '6'
    } else if d == 7 {
        '7'
    } else if d == 8 {
        '8'
    } else {
        '9'
    }
}

/// The decimal numeral of `n`, without sign or leading zeros.
pub open spec fn decimal_digits(n: nat) -> Seq<char>
    decreases n,
{
    if n < 10 {
        seq![digit_char(n)]
    } else {
        decimal_digits(n / 10).push(digit_char(n % 10))
    }
}

/// The one-character string of a decimal digit.
fn digit_str(d: u64) -> (s: &'static str)
    requires
        d < 10,
    ensures
        s@ == seq![digit_char(d as nat)],
{
    proof {
        reveal_strlit("0");
        reveal_strlit("1");
        reveal_strlit("2");
        reveal_strlit("3");
        reveal_strlit("4");
        reveal_strlit("5");
        reveal_strlit("6");
        reveal_strlit("7");
        reveal_strlit("8");
        reveal_strlit("9");
    }
    let s = if d == 0 {
        "0"
    } else if d == 1 {
        "1"
    } else if d == 2 {
        "2"
    } else if d == 3 {
        "3"
    } else if d == 4 {
        "4"
    } else if d == 5 {
        "5"
    } else if d == 6 {
        "6"
    } else if d == 7 {
        "7"
    } else if d == 8 {
        "8"
    } else {
        "9"
    };
    assert(s@ =~= seq![digit_char(d as nat)]);
    s
}

/// Appends the decimal numeral of `n` to `out`.
pub fn push_decimal(out: &mut String, n: u64)
    ensures
        final(out)@ == old(out)@ + decimal_digits(n as nat),
    decreases n,
{
    if n >= 10 {
        push_decimal(out, n / 10);
    }
    out.append(digit_str(n % 10));
    assert(out@ =~= old(out)@ + decimal_digits(n as nat));
}

/// What an item holds, as plain values.
pub struct ItemView {
    /// Name of the author.
    pub by: Seq<char>,
    /// Number of comments below the item, where the feed gives it.
    pub descendants: Option<u64>,
    /// The feed's key of the item.
    pub id: u64,
    /// Ids of the direct replies, where the feed gives them.
    pub kids: Option<Seq<u64>>,
    /// Points of the item, where the feed gives them.
    pub score: Option<u32>,
    /// Time of submission, in seconds since the Unix epoch.
    pub time: u64,
    /// Headline, where the item has one.
    pub title: Option<Seq<char>>,
    /// Body text, where the item has one.
    pub text: Option<Seq<char>>,
    /// Kind of the item, as the feed names it.
    pub item_type: Seq<char>,
    /// Link to an outside page, where the item has one.
    pub url: Option<Seq<char>>,
    /// Whether a traversal has handed the item out.
    pub seen: bool,
    /// Whether the item was hidden on request.
    pub hidden: bool,
}

impl ItemView {
    /// The headline shown for the item: its title, or nothing.
    pub open spec fn display_title(self) -> Seq<char> {
        match self.title {
            Some(t) => t,
            None => Seq::empty(),
        }
    }

    /// The link shown for the item: its own, or that of its discussion page.
    pub open spec fn display_url(self) -> Seq<char> {
        match self.url {
            Some(u) => u,
            None => HN_URL_DISCUSSION@ + decimal_digits(self.id as nat),
        }
    }

    /// The same item, handed out by a traversal.
    pub open spec fn as_seen(self) -> ItemView {
        ItemView { seen: true, ..self }
    }

    /// The same item, hidden on request.
    pub open spec fn as_hidden(self) -> ItemView {
        ItemView { hidden: true, ..self }
    }

    /// The same item with both local marks cleared, as the feed delivers it.
    pub open spec fn as_fetched(self) -> ItemView {
        ItemView { seen: false, hidden: false, ..self }
    }
}

/// Stores the metadata about a single news item.
///
/// `seen` and `hidden` are local marks: the feed never sets them.
#[derive(Debug)]
pub struct Item {
    by: String,
    descendants: Option<u64>,
    id: u64,
    kids: Option<Vec<u64>>,
    score: Option<u32>,
    time: u64,
    title: Option<String>,
    text: Option<String>,
    item_type: String,
    url: Option<String>,
    seen: bool,
    hidden: bool,
}

/// The characters of an optional string.
pub open spec fn opt_chars(s: Option<String>) -> Option<Seq<char>> {
    match s {
        Some(t) => Some(t@),
        None => None,
    }
}

/// The entries of an optional list of ids.
pub open spec fn opt_ids(v: Option<Vec<u64>>) -> Option<Seq<u64>> {
    match v {
        Some(k) => Some(k@),
        None => None,
    }
}

impl View for Item {
    type V = ItemView;

    closed spec fn view(&self) -> ItemView {
        ItemView {
            by: self.by@,
            descendants: self.descendants,
            id: self.id,
            kids: opt_ids(self.kids),
            score: self.score,
            time: self.time,
            title: opt_chars(self.title),
            text: opt_chars(self.text),
            item_type: self.item_type@,
            url: opt_chars(self.url),
            seen: self.seen,
            hidden: self.hidden,
        }
    }
}

fn clone_text(s: &Option<String>) -> (r: Option<String>)
    ensures
        opt_chars(r) == opt_chars(*s),
{
    match s {
        Some(t) => Some(t.clone()),
        None => None,
    }
}

fn clone_ids(v: &Option<Vec<u64>>) -> (r: Option<Vec<u64>>)
    ensures
        opt_ids(r) == opt_ids(*v),
{
    match v {
        Some(k) => Some(k.clone()),
        None => None,
    }
}

impl Clone for Item {
    fn clone(&self) -> (r: Self)
        ensures
            r@ == self@,
    {
        Item {
            by: self.by.clone(),
            descendants: self.descendants,
            id: self.id,
            kids: clone_ids(&self.kids),
            score: self.score,
            time: self.time,
            title: clone_text(&self.title),
            text: clone_text(&self.text),
            item_type: self.item_type.clone(),
            url: clone_text(&self.url),
            seen: self.seen,
            hidden: self.hidden,
        }
    }
}

impl Item {
    /// An item as the feed delivers it: neither seen nor hidden.
    pub fn new(
        id: u64,
        by: String,
        time: u64,
        item_type: String,
        title: Option<String>,
        text: Option<String>,
        url: Option<String>,
        score: Option<u32>,
        descendants: Option<u64>,
        kids: Option<Vec<u64>>,
    ) -> (r: Item)
        ensures
            r@ == (ItemView {
                by: by@,
                descendants,
                id,
                kids: opt_ids(kids),
                score,
                time,
                title: opt_chars(title),
                text: opt_chars(text),
                item_type: item_type@,
                url: opt_chars(url),
                seen: false,
                hidden: false,
            }),
    {
        Item {
            by,
            descendants,
            id,
            kids,
            score,
            time,
            title,
            text,
            item_type,
            url,
            seen: false,
            hidden: false,
        }
    }

    /// Return the title of the news item, or the empty string where it has none.
    pub fn title(&self) -> (r: String)
        ensures
            r@ == self@.display_title(),
    {
        match &self.title {
            Some(t) => t.clone(),
            None => String::new(),
        }
    }

    /// Return the URL of the news item.
    ///
    /// This is the link to the external website if it has one, or a link to
    /// the comment section for stories without external links.
    pub fn url(&self) -> (r: String)
        ensures
            r@ == self@.display_url(),
    {
        match &self.url {
            Some(u) => u.clone(),
            None => {
                let mut link = HN_URL_DISCUSSION.to_owned();
                push_decimal(&mut link, self.id);
                link
            },
        }
    }

    /// The feed's key of the item.
    pub fn id(&self) -> (r: u64)
        ensures
            r == self@.id,
    {
        self.id
    }

    /// Whether a traversal has handed the item out.
    pub fn is_seen(&self) -> (r: bool)
        ensures
            r == self@.seen,
    {
        self.seen
    }

    /// Whether the item was hidden on request.
    pub fn is_hidden(&self) -> (r: bool)
        ensures
            r == self@.hidden,
    {
        self.hidden
    }

    /// Marks the item as handed out.
    pub(crate) fn mark_seen(&mut self)
        ensures
            final(self)@ == old(self)@.as_seen(),
    {
        self.seen = true;
    }

    /// Marks the item as hidden.
    pub(crate) fn mark_hidden(&mut self)
        ensures
            final(self)@ == old(self)@.as_hidden(),
    {
        self.hidden = true;
    }

    /// Clears both local marks.
    pub(crate) fn clear_marks(&mut self)
        ensures
            final(self)@ == old(self)@.as_fetched(),
    {
        self.seen = false;
        self.hidden = false;
    }
}

} // verus!
