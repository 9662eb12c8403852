//! The tags on the board's cards, and what the box a tag is typed in offers under it.

use vstd::prelude::*;

use crate::model::TaskView;

use crate::model::{holds_id, ids_hold};
use crate::text::{
    chars_of, contains, has_substring, is_white_space, is_whitespace, lowercase_of, push_char,
    to_lowercase, trim, trimmed,
};

verus! {

/// The tags offered under the box, from the board's tags in the order the board has them:
/// each once, none the box already holds, and only those with `typed` in them.
pub open spec fn offered(tags: Seq<String>, held: Seq<String>, typed: Seq<char>) -> Seq<String>
    decreases tags.len(),
{
    if tags.len() == 0 {
        Seq::empty()
    } else {
        let before = offered(tags.drop_last(), held, typed);
        let tag = tags.last();
        if holds_id(held, tag@) || holds_id(before, tag@) || !has_substring(tag@, typed) {
            before
        } else {
            before.push(tag)
        }
    }
}

/// Every card's tags, card after card.
pub open spec fn tags_of(tasks: Seq<TaskView>) -> Seq<String>
    decreases tasks.len(),
{
    if tasks.len() == 0 {
        Seq::empty()
    } else {
        tags_of(tasks.drop_last()) + tasks.last().tags@
    }
}

/// Every card's tags, card after card: what the list under a tag box is drawn from.
pub fn tags_on_board(tasks: &Vec<TaskView>) -> (tags: Vec<String>)
    ensures
        tags@ == tags_of(tasks@),
{
    let mut tags: Vec<String> = Vec::new();
    let mut i: usize = 0;
    while i < tasks.len()
        invariant
            i <= tasks.len(),
            tags@ == tags_of(tasks@.take(i as int)),
        decreases tasks.len() - i,
    {
        assert(tasks@.take(i + 1).drop_last() =~= tasks@.take(i as int));
        let on_card = &tasks[i].tags;
        let ghost before = tags@;
        let mut k: usize = 0;
        while k < on_card.len()
            invariant
                k <= on_card.len(),
                tags@ == before + on_card@.take(k as int),
            decreases on_card.len() - k,
        {
            tags.push(on_card[k].clone());
            assert(tags@ =~= before + on_card@.take(k + 1));
            k = k + 1;
        }
        assert(on_card@.take(on_card.len() as int) =~= on_card@);
        i = i + 1;
    }
    assert(tasks@.take(tasks.len() as int) =~= tasks@);
    tags
}

/// The tags the rest of the board uses that the box does not hold, narrowed to what is being
/// typed - trimmed and in small letters. What somebody is halfway through writing is usually a
/// tag they have written before, so the list under the box is the rest of that word.
///
/// `board_tags` is every card's tags, card after card.
pub fn suggestions(board_tags: &Vec<String>, held: &Vec<String>, typed: &str) -> (offers: Vec<String>)
    ensures
        offers@ == offered(board_tags@, held@, lowercase_of(trimmed(typed@))),
{
    let wanted = to_lowercase(trim(typed));
    let mut offers: Vec<String> = Vec::new();
    let mut i: usize = 0;
    while i < board_tags.len()
        invariant
            i <= board_tags.len(),
            wanted@ == lowercase_of(trimmed(typed@)),
            offers@ == offered(board_tags@.take(i as int), held@, wanted@),
        decreases board_tags.len() - i,
    {
        let tag = &board_tags[i];
        proof {
            assert(board_tags@.take(i + 1).drop_last() =~= board_tags@.take(i as int));
            assert(board_tags@.take(i + 1).last() == board_tags@[i as int]);
        }
        if !(ids_hold(held, tag) || ids_hold(&offers, tag) || !contains(tag.as_str(), wanted.as_str())) {
            offers.push(tag.clone());
        }
        i = i + 1;
    }
    assert(board_tags@.take(board_tags.len() as int) =~= board_tags@);
    offers
}

/// The words of a text so far, as `str::split_whitespace` finds them: the words ended by a
/// space, and the one still going, if any.
pub open spec fn split_words(s: Seq<char>) -> (Seq<Seq<char>>, Seq<char>)
    decreases s.len(),
{
    if s.len() == 0 {
        (Seq::empty(), Seq::empty())
    } else {
        let (done, going) = split_words(s.drop_last());
        if is_white_space(s.last()) {
            if going.len() > 0 {
                (done.push(going), Seq::empty())
            } else {
                (done, Seq::empty())
            }
        } else {
            (done, going.push(s.last()))
        }
    }
}

/// The words of a text: its runs of characters that are not white space.
pub open spec fn words_of(s: Seq<char>) -> Seq<Seq<char>> {
    let (done, going) = split_words(s);
    if going.len() > 0 {
        done.push(going)
    } else {
        done
    }
}

/// What typing in a tag box comes to: the words finished - by a space after them, or by Enter
/// - go on the card, and the one still being typed stays in the box. A text with no word
/// finished is left as it is typed, but for a space or an Enter on their own, which empty it.
pub open spec fn typed_spec(text: Seq<char>, entered: bool) -> (Seq<Seq<char>>, Option<Seq<char>>) {
    let finished = entered || (text.len() > 0 && is_white_space(text.last()));
    let words = words_of(text);
    let (on, left) = if finished || words.len() == 0 {
        (words, Seq::<char>::empty())
    } else {
        (words.drop_last(), words.last())
    };
    if on.len() > 0 {
        (on, Some(left))
    } else if finished {
        (on, Some(Seq::empty()))
    } else {
        (on, None)
    }
}

/// The words typed in a tag box that go on the card, and what the box holds afterwards -
/// `None` for a box left as it was typed. See [`typed_spec`].
pub fn typed_tags(text: &str, entered: bool) -> (typed: (Vec<String>, Option<String>))
    ensures
        ({
            let (on, left) = typed_spec(text@, entered);
            &&& typed.0@.map_values(|w: String| w@) == on
            &&& match left {
                Some(l) => typed.1 matches Some(t) && t@ == l,
                None => typed.1 is None,
            }
        }),
{
    let chars = chars_of(text);
    let mut done: Vec<String> = Vec::new();
    let mut going = String::new();
    let mut i: usize = 0;
    assert(chars@.take(0) =~= Seq::<char>::empty());
    while i < chars.len()
        invariant
            i <= chars.len(),
            chars@ == text@,
            (done@.map_values(|w: String| w@), going@) == split_words(chars@.take(i as int)),
        decreases chars.len() - i,
    {
        let c = chars[i];
        proof {
            assert(chars@.take(i + 1).drop_last() =~= chars@.take(i as int));
            assert(chars@.take(i + 1).last() == c);
        }
        if is_whitespace(c) {
            if going.unicode_len() > 0 {
                let ghost before = done@;
                let mut word = String::new();
                std::mem::swap(&mut word, &mut going);
                done.push(word);
                assert(done@.map_values(|w: String| w@) =~= before.map_values(|w: String| w@).push(
                    word@,
                ));
            }
        } else {
            push_char(&mut going, c);
        }
        i = i + 1;
    }
    assert(chars@.take(chars.len() as int) =~= text@);
    let n = chars.len();
    let finished = entered || (n > 0 && is_whitespace(chars[n - 1]));
    let mut words = done;
    if going.unicode_len() > 0 {
        let ghost before = words@;
        words.push(going);
        assert(words@.map_values(|w: String| w@) =~= before.map_values(|w: String| w@).push(
            words@.last()@,
        ));
    }
    let left = if finished || words.len() == 0 {
        String::new()
    } else {
        let ghost before = words@;
        let last = words.pop().unwrap();
        assert(words@.map_values(|w: String| w@) =~= before.map_values(|w: String| w@).drop_last());
        last
    };
    if words.len() > 0 {
        (words, Some(left))
    } else if finished {
        (words, Some(String::new()))
    } else {
        (words, None)
    }
}

/// A press in a tag box that changes what the card is marked with.
#[derive(Debug)]
pub enum TagPress {
    /// Backspace with nothing typed: the last tag comes off, the way that key takes the last
    /// thing out of every field that holds things rather than letters.
    Backspace,
    /// The mark on a tag's pill: that tag comes off.
    Remove(String),
    /// A tag offered under the box: it goes on.
    Add(String),
}

/// The tags with every one spelled `tag` taken out.
pub open spec fn without_tag(held: Seq<String>, tag: Seq<char>) -> Seq<String>
    decreases held.len(),
{
    if held.len() == 0 {
        Seq::empty()
    } else {
        without_tag(held.drop_last(), tag) + if held.last()@ == tag {
            Seq::empty()
        } else {
            seq![held.last()]
        }
    }
}

/// What a press makes of the tags the box holds: `None` for a backspace with no tag left to
/// take off.
pub open spec fn tags_after_spec(held: Seq<String>, press: TagPress) -> Option<Seq<String>> {
    match press {
        TagPress::Backspace => if held.len() == 0 {
            None
        } else {
            Some(held.drop_last())
        },
        TagPress::Remove(tag) => Some(without_tag(held, tag@)),
        TagPress::Add(tag) => Some(held.push(tag)),
    }
}

/// What the card should end up marked with after a press in its tag box - see
/// [`tags_after_spec`].
pub fn tags_after(held: &Vec<String>, press: TagPress) -> (wanted: Option<Vec<String>>)
    ensures
        match tags_after_spec(held@, press) {
            Some(tags) => wanted matches Some(w) && w@ == tags,
            None => wanted is None,
        },
{
    let mut tags: Vec<String> = Vec::new();
    match press {
        TagPress::Backspace => {
            if held.len() == 0 {
                return None;
            }
            let mut i: usize = 0;
            while i + 1 < held.len()
                invariant
                    i + 1 <= held.len(),
                    tags@ == held@.take(i as int),
                decreases held.len() - i,
            {
                tags.push(held[i].clone());
                assert(tags@ =~= held@.take(i + 1));
                i = i + 1;
            }
            assert(tags@ =~= held@.drop_last());
            Some(tags)
        },
        TagPress::Remove(tag) => {
            let mut i: usize = 0;
            while i < held.len()
                invariant
                    i <= held.len(),
                    tags@ == without_tag(held@.take(i as int), tag@),
                decreases held.len() - i,
            {
                assert(held@.take(i + 1).drop_last() =~= held@.take(i as int));
                if held[i] != tag {
                    tags.push(held[i].clone());
                }
                assert(tags@ =~= without_tag(held@.take(i + 1), tag@));
                i = i + 1;
            }
            assert(held@.take(held.len() as int) =~= held@);
            Some(tags)
        },
        TagPress::Add(tag) => {
            let mut i: usize = 0;
            while i < held.len()
                invariant
                    i <= held.len(),
                    tags@ == held@.take(i as int),
                decreases held.len() - i,
            {
                tags.push(held[i].clone());
                assert(tags@ =~= held@.take(i + 1));
                i = i + 1;
            }
            assert(held@.take(held.len() as int) =~= held@);
            tags.push(tag);
            Some(tags)
        },
    }
}

/// Whether two lists of tags say the same, tag for tag.
pub open spec fn same_tags(a: Seq<String>, b: Seq<String>) -> bool {
    a.len() == b.len() && forall|k: int| 0 <= k < a.len() ==> (#[trigger] a[k])@ == b[k]@
}

/// The tags to send for a card once a frame has had its say: none when nothing changed them,
/// or when what it wants is what the card already says - the same write twice is no write.
pub fn tags_to_send(held: &Vec<String>, wanted: Option<Vec<String>>) -> (sent: Option<Vec<String>>)
    ensures
        match wanted {
            None => sent is None,
            Some(w) => if same_tags(w@, held@) {
                sent is None
            } else {
                sent == Some(w)
            },
        },
{
    let w = match wanted {
        None => {
            return None;
        },
        Some(w) => w,
    };
    if w.len() != held.len() {
        return Some(w);
    }
    let mut k: usize = 0;
    while k < held.len()
        invariant
            k <= held.len() == w.len(),
            wanted == Some(w),
            forall|j: int| 0 <= j < k ==> (#[trigger] w@[j])@ == held@[j]@,
        decreases held.len() - k,
    {
        let same = w[k] == held[k];
        if !same {
            assert(w@[k as int]@ != held@[k as int]@);
            assert(!same_tags(w@, held@));
            return Some(w);
        }
        k = k + 1;
    }
    assert(same_tags(w@, held@));
    None
}

/// Escape in a card's tag box: it empties the box, and shuts a box that was already empty if
/// it is the one open on this card.
pub fn escape_in_tag_box(typed: &mut String, tagging_card: &mut Option<String>, task_id: &String)
    ensures
        if old(typed)@.len() == 0 {
            &&& final(typed)@ == old(typed)@
            &&& *final(tagging_card) == match *old(tagging_card) {
                Some(open) => if open@ == task_id@ {
                    None
                } else {
                    Some(open)
                },
                None => None,
            }
        } else {
            final(typed)@.len() == 0 && *final(tagging_card) == *old(tagging_card)
        },
{
    if typed.unicode_len() == 0 {
        let shuts = match tagging_card {
            Some(open) => *open == *task_id,
            None => false,
        };
        if shuts {
            *tagging_card = None;
        }
    } else {
        *typed = String::new();
    }
}

} // verus!
