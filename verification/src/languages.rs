//! The subtitle and automatic-caption languages of a video.
use vstd::prelude::*;

use crate::text::{chars_eq, chars_of};
use crate::video::Video;

verus! {

/// Lexicographic "less than" on character sequences: the order of `String`
/// (UTF-8 byte order, which is code point order).
pub open spec fn chars_lt(a: Seq<char>, b: Seq<char>) -> bool
    decreases a.len(),
{
    if a.len() == 0 {
        b.len() > 0
    } else if b.len() == 0 {
        false
    } else if a[0] < b[0] {
        true
    } else if a[0] > b[0] {
        false
    } else {
        chars_lt(a.drop_first(), b.drop_first())
    }
}

/// No sequence is below itself.
pub proof fn lemma_chars_lt_irrefl(a: Seq<char>)
    ensures
        !chars_lt(a, a),
    decreases a.len(),
{
    if a.len() > 0 {
        lemma_chars_lt_irrefl(a.drop_first());
    }
}

/// The order is transitive.
pub proof fn lemma_chars_lt_trans(a: Seq<char>, b: Seq<char>, c: Seq<char>)
    requires
        chars_lt(a, b),
        chars_lt(b, c),
    ensures
        chars_lt(a, c),
    decreases a.len(),
{
    if a.len() > 0 && b.len() > 0 && c.len() > 0 && a[0] == b[0] && b[0] == c[0] {
        lemma_chars_lt_trans(a.drop_first(), b.drop_first(), c.drop_first());
    }
}

/// Two different sequences are ordered one way or the other.
pub proof fn lemma_chars_lt_total(a: Seq<char>, b: Seq<char>)
    ensures
        a == b || chars_lt(a, b) || chars_lt(b, a),
    decreases a.len(),
{
    if a.len() > 0 && b.len() > 0 && a[0] == b[0] {
        lemma_chars_lt_total(a.drop_first(), b.drop_first());
        if a.drop_first() == b.drop_first() {
            assert(a =~= seq![a[0]] + a.drop_first());
            assert(b =~= seq![b[0]] + b.drop_first());
        }
    } else if a.len() == 0 && b.len() == 0 {
        assert(a =~= b);
    }
}

/// Whether `a` sorts before `b`.
pub fn chars_less(a: &Vec<char>, b: &Vec<char>) -> (r: bool)
    ensures
        r == chars_lt(a@, b@),
{
    let mut i: usize = 0;
    assert(a@.skip(0) =~= a@);
    assert(b@.skip(0) =~= b@);
    while i < a.len() && i < b.len()
        invariant
            i <= a.len(),
            i <= b.len(),
            chars_lt(a@, b@) == chars_lt(a@.skip(i as int), b@.skip(i as int)),
        decreases a.len() - i,
    {
        assert(a@.skip(i as int).drop_first() =~= a@.skip(i + 1));
        assert(b@.skip(i as int).drop_first() =~= b@.skip(i + 1));
        if a[i] < b[i] {
            return true;
        } else if a[i] > b[i] {
            return false;
        }
        i = i + 1;
    }
    i == a.len() && i < b.len()
}

/// The character sequences of a list of strings.
pub open spec fn views(v: Seq<String>) -> Seq<Seq<char>> {
    v.map_values(|s: String| s@)
}

/// `r` is strictly ascending.
pub open spec fn strictly_sorted(r: Seq<Seq<char>>) -> bool {
    forall|p: int, q: int| 0 <= p < q < r.len() ==> chars_lt(#[trigger] r[p], #[trigger] r[q])
}

/// Adds `s` to the strictly ascending list `sorted` unless it is already there.
fn insert_unique(sorted: &mut Vec<String>, sorted_chars: &mut Vec<Vec<char>>, s: &String)
    requires
        old(sorted).len() == old(sorted_chars).len(),
        forall|p: int| 0 <= p < old(sorted).len() ==> #[trigger] old(sorted_chars)@[p]@ == old(sorted)@[p]@,
        strictly_sorted(views(old(sorted)@)),
    ensures
        final(sorted).len() == final(sorted_chars).len(),
        forall|p: int| 0 <= p < final(sorted).len() ==> #[trigger] final(sorted_chars)@[p]@ == final(sorted)@[p]@,
        strictly_sorted(views(final(sorted)@)),
        forall|code: Seq<char>|
            views(final(sorted)@).contains(code) <==> (views(old(sorted)@).contains(code) || code == s@),
{
    let cs = chars_of(s.as_str());
    let mut pos: usize = 0;
    while pos < sorted_chars.len()
        invariant
            pos <= sorted_chars.len(),
            sorted@ == old(sorted)@,
            sorted_chars@ == old(sorted_chars)@,
            sorted.len() == sorted_chars.len(),
            forall|p: int| 0 <= p < sorted.len() ==> #[trigger] sorted_chars@[p]@ == sorted@[p]@,
            forall|q: int| 0 <= q < pos ==> chars_lt(#[trigger] views(sorted@)[q], cs@),
        ensures
            pos <= sorted_chars.len(),
            forall|q: int| 0 <= q < pos ==> chars_lt(#[trigger] views(sorted@)[q], cs@),
            pos < sorted_chars.len() ==> !chars_lt(views(sorted@)[pos as int], cs@),
        decreases sorted_chars.len() - pos,
    {
        if !chars_less(&sorted_chars[pos], &cs) {
            break;
        }
        pos = pos + 1;
    }
    let ghost old_views = views(sorted@);
    assert(old_views == views(old(sorted)@));
    assert(cs@ == s@);
    let duplicate = pos < sorted_chars.len() && chars_eq(&sorted_chars[pos], &cs);
    if duplicate {
        proof {
            assert(old_views[pos as int] == cs@);
            assert forall|code: Seq<char>| views(sorted@).contains(code) <==> (old_views.contains(code) || code == s@) by {
                if code == s@ {
                    assert(old_views[pos as int] == code);
                }
            }
        }
        assert(forall|code: Seq<char>|
            views(sorted@).contains(code) <==> (views(old(sorted)@).contains(code) || code == s@));
        return;
    }
    proof {
        if pos < sorted_chars.len() {
            lemma_chars_lt_total(old_views[pos as int], cs@);
        }
    }
    sorted.insert(pos, s.clone());
    sorted_chars.insert(pos, cs);
    proof {
        assert(views(sorted@) =~= old_views.insert(pos as int, cs@));
        assert forall|p: int, q: int| 0 <= p < q < views(sorted@).len() implies chars_lt(#[trigger] views(sorted@)[p], #[trigger] views(sorted@)[q]) by {
            if q < pos {
                assert(views(sorted@)[p] == old_views[p]);
                assert(views(sorted@)[q] == old_views[q]);
            } else if q == pos {
                assert(views(sorted@)[p] == old_views[p]);
            } else if p == pos {
                assert(views(sorted@)[q] == old_views[q - 1]);
                if q - 1 > pos {
                    lemma_chars_lt_trans(cs@, old_views[pos as int], old_views[q - 1]);
                }
            } else if p < pos {
                assert(views(sorted@)[p] == old_views[p]);
                assert(views(sorted@)[q] == old_views[q - 1]);
            } else {
                assert(views(sorted@)[p] == old_views[p - 1]);
                assert(views(sorted@)[q] == old_views[q - 1]);
            }
        }
        assert forall|p: int| 0 <= p < sorted.len() implies #[trigger] sorted_chars@[p]@ == sorted@[p]@ by {
            assert(sorted_chars@[p]@ == views(sorted@)[p]);
        }
        assert forall|code: Seq<char>| views(sorted@).contains(code) <==> (old_views.contains(code) || code == s@) by {
            if code == s@ {
                assert(views(sorted@)[pos as int] == code);
            }
            if old_views.contains(code) {
                let k = choose|k: int| 0 <= k < old_views.len() && old_views[k] == code;
                if k < pos {
                    assert(views(sorted@)[k] == code);
                } else {
                    assert(views(sorted@)[k + 1] == code);
                }
            }
            if views(sorted@).contains(code) {
                let k = choose|k: int| 0 <= k < views(sorted@).len() && views(sorted@)[k] == code;
                if k < pos {
                    assert(old_views[k] == code);
                } else if k > pos {
                    assert(old_views[k - 1] == code);
                }
            }
        }
        assert(forall|code: Seq<char>|
            views(sorted@).contains(code) <==> (views(old(sorted)@).contains(code) || code == s@));
    }
}

/// Appending `x` adds exactly `x` to what a sequence contains.
proof fn lemma_push_contains(s: Seq<Seq<char>>, x: Seq<char>, y: Seq<char>)
    ensures
        s.push(x).contains(y) <==> (s.contains(y) || x == y),
{
    if s.push(x).contains(y) {
        let k = choose|k: int| 0 <= k < s.push(x).len() && s.push(x)[k] == y;
        if k < s.len() {
            assert(s[k] == y);
        }
    }
    if s.contains(y) {
        let k = choose|k: int| 0 <= k < s.len() && s[k] == y;
        assert(s.push(x)[k] == y);
    }
    if x == y {
        assert(s.push(x)[s.len() as int] == y);
    }
}

/// Whether one of the strings equals `code`.
fn contains_code(list: &Vec<String>, code: &Vec<char>) -> (r: bool)
    ensures
        r == views(list@).contains(code@),
{
    let mut i: usize = 0;
    while i < list.len()
        invariant
            i <= list.len(),
            forall|k: int| 0 <= k < i ==> #[trigger] list@[k]@ != code@,
        decreases list.len() - i,
    {
        let item: &String = &list[i];
        let c = chars_of(item.as_str());
        if chars_eq(&c, code) {
            assert(views(list@)[i as int] == code@);
            return true;
        }
        i = i + 1;
    }
    proof {
        if views(list@).contains(code@) {
            let k = choose|k: int| 0 <= k < views(list@).len() && views(list@)[k] == code@;
            assert(list@[k]@ == code@);
        }
    }
    false
}

impl Video {
    /// The languages for which the video has subtitles or automatic captions.
    pub open spec fn has_language(self, code: Seq<char>) -> bool {
        views(self.subtitle_languages@).contains(code) || views(self.automatic_caption_languages@).contains(code)
    }

    /// Lists the language codes of the video's subtitles and automatic
    /// captions: each once, in ascending order.
    pub fn list_subtitle_languages(&self) -> (r: Vec<String>)
        ensures
            strictly_sorted(views(r@)),
            forall|code: Seq<char>| views(r@).contains(code) <==> self.has_language(code),
    {
        let mut sorted: Vec<String> = Vec::new();
        let mut sorted_chars: Vec<Vec<char>> = Vec::new();
        let mut i: usize = 0;
        while i < self.subtitle_languages.len()
            invariant
                i <= self.subtitle_languages.len(),
                sorted.len() == sorted_chars.len(),
                forall|p: int| 0 <= p < sorted.len() ==> #[trigger] sorted_chars@[p]@ == sorted@[p]@,
                strictly_sorted(views(sorted@)),
                forall|code: Seq<char>| views(sorted@).contains(code) <==> views(self.subtitle_languages@.take(i as int)).contains(code),
            decreases self.subtitle_languages.len() - i,
        {
            insert_unique(&mut sorted, &mut sorted_chars, &self.subtitle_languages[i]);
            proof {
                let before = views(self.subtitle_languages@.take(i as int));
                assert(views(self.subtitle_languages@.take(i + 1)) =~= before.push(self.subtitle_languages@[i as int]@));
                assert forall|code: Seq<char>| views(self.subtitle_languages@.take(i + 1)).contains(code) <==> (before.contains(code) || code == self.subtitle_languages@[i as int]@) by {
                    lemma_push_contains(before, self.subtitle_languages@[i as int]@, code);
                }
            }
            i = i + 1;
        }
        assert(self.subtitle_languages@.take(i as int) =~= self.subtitle_languages@);
        let mut j: usize = 0;
        while j < self.automatic_caption_languages.len()
            invariant
                j <= self.automatic_caption_languages.len(),
                sorted.len() == sorted_chars.len(),
                forall|p: int| 0 <= p < sorted.len() ==> #[trigger] sorted_chars@[p]@ == sorted@[p]@,
                strictly_sorted(views(sorted@)),
                forall|code: Seq<char>| views(sorted@).contains(code) <==> (views(self.subtitle_languages@).contains(code) || views(self.automatic_caption_languages@.take(j as int)).contains(code)),
            decreases self.automatic_caption_languages.len() - j,
        {
            insert_unique(&mut sorted, &mut sorted_chars, &self.automatic_caption_languages[j]);
            proof {
                let before = views(self.automatic_caption_languages@.take(j as int));
                assert(views(self.automatic_caption_languages@.take(j + 1)) =~= before.push(self.automatic_caption_languages@[j as int]@));
                assert forall|code: Seq<char>| views(self.automatic_caption_languages@.take(j + 1)).contains(code) <==> (before.contains(code) || code == self.automatic_caption_languages@[j as int]@) by {
                    lemma_push_contains(before, self.automatic_caption_languages@[j as int]@, code);
                }
            }
            j = j + 1;
        }
        assert(self.automatic_caption_languages@.take(j as int) =~= self.automatic_caption_languages@);
        sorted
    }

    /// Whether the video has subtitles or automatic captions in a language.
    pub fn has_subtitle_language(&self, language_code: &str) -> (r: bool)
        ensures
            r == self.has_language(language_code@),
    {
        let code = chars_of(language_code);
        contains_code(&self.subtitle_languages, &code) || contains_code(&self.automatic_caption_languages, &code)
    }
}

} // verus!
