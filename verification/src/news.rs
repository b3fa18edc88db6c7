use vstd::prelude::*;

use crate::text::{self, scan_words, seq_join, split_ws, views};

verus! {

/// A patch-notes entry shown in the launcher.
#[derive(Debug, Clone)]
pub struct NewsItem {
    pub title: String,
    pub body: String,
    pub version: String,
}

/// The nested content of a patch-notes entry.
#[derive(Debug, Clone)]
pub struct PatchContent {
    pub title: Option<String>,
    pub body: Option<String>,
}

/// One entry of Mojang's Java patch notes.
#[derive(Debug, Clone)]
pub struct PatchEntry {
    pub title: Option<String>,
    pub version: Option<String>,
    pub body: Option<String>,
    pub content: Option<PatchContent>,
}

/// The text outside markup tags, and whether the scan is inside a tag: a `<`
/// starts a tag, which ends after the next `>`.
pub open spec fn scan_tags(s: Seq<char>) -> (Seq<char>, bool)
    decreases s.len(),
{
    if s.len() == 0 {
        (Seq::empty(), false)
    } else {
        let (out, in_tag) = scan_tags(s.drop_last());
        let c = s.last();
        if in_tag {
            (out, c != '>')
        } else if c == '<' {
            (out, true)
        } else {
            (out.push(c), false)
        }
    }
}

/// Patch-notes text as plain text: tags removed, whitespace runs collapsed to
/// single spaces (none at the ends), and cut to 277 characters plus `…` when
/// longer than 280.
pub open spec fn spec_strip_html(s: Seq<char>) -> Seq<char> {
    let collapsed = seq_join(split_ws(scan_tags(s).0), " "@);
    if collapsed.len() > 280 {
        collapsed.take(277).push('…')
    } else {
        collapsed
    }
}

/// Turns patch-notes markup into plain text.
pub fn strip_html(input: &str) -> (res: String)
    ensures
        res@ == spec_strip_html(input@),
{
    let v = text::to_chars(input);
    let n = v.len();
    let mut out: Vec<char> = Vec::new();
    let mut in_tag = false;
    let mut i: usize = 0;
    while i < n
        invariant
            n == v@.len(),
            v@ == input@,
            i <= n,
            (out@, in_tag) == scan_tags(v@.take(i as int)),
        decreases n - i,
    {
        let c = v[i];
        assert(v@.take(i as int + 1).drop_last() =~= v@.take(i as int));
        if in_tag {
            in_tag = c != '>';
        } else if c == '<' {
            in_tag = true;
        } else {
            out.push(c);
        }
        i = i + 1;
    }
    assert(v@.take(n as int) =~= v@);
    let plain = text::from_chars(&out);
    let words = text::split_whitespace(plain.as_str());
    assert(views(words@) =~= split_ws(plain@));
    let collapsed = text::join(&words, " ");
    let cv = text::to_chars(collapsed.as_str());
    if cv.len() > 280 {
        let mut cut = text::slice_chars(&cv, 0, 277);
        assert(cut@ =~= cv@.take(277));
        cut.push('…');
        text::from_chars(&cut)
    } else {
        collapsed
    }
}

/// A patch-notes entry as shown: its title (else the content's, else
/// `Minecraft`) and body (else the content's, else empty) as plain text, and
/// its version (else empty).
pub open spec fn news_item_of(e: PatchEntry, item: NewsItem) -> bool {
    let title = match e.title {
        Some(t) => t@,
        None => match e.content {
            Some(c) => match c.title {
                Some(t) => t@,
                None => "Minecraft"@,
            },
            None => "Minecraft"@,
        },
    };
    let body = match e.body {
        Some(b) => b@,
        None => match e.content {
            Some(c) => match c.body {
                Some(b) => b@,
                None => Seq::empty(),
            },
            None => Seq::empty(),
        },
    };
    &&& item.title@ == spec_strip_html(title)
    &&& item.body@ == spec_strip_html(body)
    &&& item.version@ == (match e.version {
        Some(v) => v@,
        None => Seq::empty(),
    })
}

/// The news shown: the first 20 patch-notes entries, in order.
pub fn news_items(entries: &Vec<PatchEntry>) -> (res: Vec<NewsItem>)
    ensures
        res@.len() == if entries@.len() < 20 {
            entries@.len()
        } else {
            20
        },
        forall|i: int| 0 <= i < res@.len() ==> news_item_of(entries@[i], #[trigger] res@[i]),
{
    let n = if entries.len() < 20 {
        entries.len()
    } else {
        20
    };
    let mut items: Vec<NewsItem> = Vec::new();
    let mut i: usize = 0;
    while i < n
        invariant
            n <= entries@.len(),
            n == (if entries@.len() < 20 {
                entries@.len()
            } else {
                20
            }),
            i <= n,
            items@.len() == i,
            forall|k: int| 0 <= k < i ==> news_item_of(entries@[k], #[trigger] items@[k]),
        decreases n - i,
    {
        let e = &entries[i];
        let title: String = match &e.title {
            Some(t) => t.clone(),
            None => match &e.content {
                Some(c) => match &c.title {
                    Some(t) => t.clone(),
                    None => text::owned("Minecraft"),
                },
                None => text::owned("Minecraft"),
            },
        };
        let body: String = match &e.body {
            Some(b) => b.clone(),
            None => match &e.content {
                Some(c) => match &c.body {
                    Some(b) => b.clone(),
                    None => String::new(),
                },
                None => String::new(),
            },
        };
        let version: String = match &e.version {
            Some(v) => v.clone(),
            None => String::new(),
        };
        let item = NewsItem { title: strip_html(title.as_str()), body: strip_html(body.as_str()), version };
        assert(news_item_of(entries@[i as int], item));
        items.push(item);
        i = i + 1;
    }
    items
}

/// No character of `s` is `c`.
pub open spec fn lacks(s: Seq<char>, c: char) -> bool {
    forall|i: int| 0 <= i < s.len() ==> s[i] != c
}

proof fn lemma_tags_leave_no_open_bracket(s: Seq<char>)
    ensures
        lacks(scan_tags(s).0, '<'),
    decreases s.len(),
{
    if s.len() > 0 {
        lemma_tags_leave_no_open_bracket(s.drop_last());
        let out = scan_tags(s.drop_last()).0;
        assert forall|i: int| 0 <= i < out.len() + 1 && s.last() != '<' implies #[trigger] out.push(
            s.last(),
        )[i] != '<' by {
            if i < out.len() {
                assert(out.push(s.last())[i] == out[i]);
            }
        }
    }
}

proof fn lemma_words_lack(s: Seq<char>, c: char)
    requires
        lacks(s, c),
    ensures
        forall|k: int| 0 <= k < scan_words(s).0.len() ==> lacks(#[trigger] scan_words(s).0[k], c),
        lacks(scan_words(s).1, c),
    decreases s.len(),
{
    if s.len() > 0 {
        assert(lacks(s.drop_last(), c)) by {
            assert forall|i: int| 0 <= i < s.drop_last().len() implies s.drop_last()[i] != c by {
                assert(s.drop_last()[i] == s[i]);
            }
        }
        lemma_words_lack(s.drop_last(), c);
        let (words, cur) = scan_words(s.drop_last());
        assert(s.last() == s[s.len() - 1]);
        assert forall|i: int| 0 <= i < cur.len() + 1 implies #[trigger] cur.push(s.last())[i] != c by {
            if i < cur.len() {
                assert(cur.push(s.last())[i] == cur[i]);
            }
        }
        assert forall|k: int| 0 <= k < words.len() + 1 implies lacks(#[trigger] words.push(cur)[k], c) by {
            if k < words.len() {
                assert(words.push(cur)[k] == words[k]);
            }
        }
    }
}

proof fn lemma_join_lacks(list: Seq<Seq<char>>, sep: Seq<char>, c: char)
    requires
        forall|k: int| 0 <= k < list.len() ==> lacks(#[trigger] list[k], c),
        lacks(sep, c),
    ensures
        lacks(seq_join(list, sep), c),
    decreases list.len(),
{
    if list.len() == 1 {
        assert(lacks(list[0], c));
    } else if list.len() > 1 {
        assert forall|k: int| 0 <= k < list.drop_last().len() implies lacks(#[trigger] list.drop_last()[k], c) by {
            assert(list.drop_last()[k] == list[k]);
        }
        lemma_join_lacks(list.drop_last(), sep, c);
        let a = seq_join(list.drop_last(), sep);
        let l = list.last();
        assert(lacks(l, c)) by {
            assert(l == list[list.len() - 1]);
        }
        assert forall|i: int| 0 <= i < (a + sep + l).len() implies (a + sep + l)[i] != c by {
            if i < a.len() {
                assert((a + sep + l)[i] == a[i]);
            } else if i < a.len() + sep.len() {
                assert((a + sep + l)[i] == sep[i - a.len()]);
            } else {
                assert((a + sep + l)[i] == l[i - a.len() - sep.len()]);
            }
        }
    }
}

/// Patch-notes text as shown holds no `<` (no tag survives) and is at most 280
/// characters long.
pub proof fn law_news_text_is_plain_and_short(s: Seq<char>)
    ensures
        lacks(spec_strip_html(s), '<'),
        spec_strip_html(s).len() <= 280,
{
    let plain = scan_tags(s).0;
    lemma_tags_leave_no_open_bracket(s);
    lemma_words_lack(plain, '<');
    let words = split_ws(plain);
    assert forall|k: int| 0 <= k < words.len() implies lacks(#[trigger] words[k], '<') by {
        let (w, cur) = scan_words(plain);
        if cur.len() > 0 && k == w.len() {
            assert(words[k] == cur);
        } else {
            assert(words[k] == w[k]);
        }
    }
    assert(lacks(" "@, '<')) by {
        reveal_strlit(" ");
    }
    lemma_join_lacks(words, " "@, '<');
    let collapsed = seq_join(words, " "@);
    if collapsed.len() > 280 {
        let out = collapsed.take(277).push('…');
        assert forall|i: int| 0 <= i < out.len() implies out[i] != '<' by {
            if i < 277 {
                assert(out[i] == collapsed[i]);
            }
        }
    }
}

} // verus!
