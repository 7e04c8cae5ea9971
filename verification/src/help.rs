//! The user manual: a help page for the script syntax and for each image
//! operation, an index of the available topics, and what is shown for a
//! requested topic.

use vstd::prelude::*;
use crate::text::{concat_text, to_lowercase, text_equals, unicode_lowercase};

verus! {

/// The topics of the user manual.
#[derive(Debug, Clone, Copy, PartialEq, Eq, Structural)]
pub enum HelpTopicKind {
    Script,
    Blur,
    Brighten,
    Contrast,
    Filter3x3,
    FlipH,
    FlipV,
    GrayScale,
    HueRotate,
    Invert,
    Resize,
    Rotate90,
    Rotate180,
    Rotate270,
    Unsharpen,
    Unavailable,
}

/// The name a topic is asked for by; empty for an unavailable topic.
pub open spec fn topic_name(k: HelpTopicKind) -> Seq<char> {
    match k {
        HelpTopicKind::Script => "script"@,
        HelpTopicKind::Blur => "blur"@,
        HelpTopicKind::Brighten => "brighten"@,
        HelpTopicKind::Contrast => "contrast"@,
        HelpTopicKind::Filter3x3 => "filter3x3"@,
        HelpTopicKind::FlipH => "fliph"@,
        HelpTopicKind::FlipV => "flipv"@,
        HelpTopicKind::GrayScale => "grayscale"@,
        HelpTopicKind::HueRotate => "huerotate"@,
        HelpTopicKind::Invert => "invert"@,
        HelpTopicKind::Resize => "resize"@,
        HelpTopicKind::Rotate90 => "rotate90"@,
        HelpTopicKind::Rotate180 => "rotate180"@,
        HelpTopicKind::Rotate270 => "rotate270"@,
        HelpTopicKind::Unsharpen => "unsharpen"@,
        HelpTopicKind::Unavailable => ""@,
    }
}

/// The topic with the given name; unavailable for any other name.
pub open spec fn topic_of_name(n: Seq<char>) -> HelpTopicKind {
    if n == "script"@ {
        HelpTopicKind::Script
    } else if n == "blur"@ {
        HelpTopicKind::Blur
    } else if n == "brighten"@ {
        HelpTopicKind::Brighten
    } else if n == "contrast"@ {
        HelpTopicKind::Contrast
    } else if n == "filter3x3"@ {
        HelpTopicKind::Filter3x3
    } else if n == "fliph"@ {
        HelpTopicKind::FlipH
    } else if n == "flipv"@ {
        HelpTopicKind::FlipV
    } else if n == "grayscale"@ {
        HelpTopicKind::GrayScale
    } else if n == "huerotate"@ {
        HelpTopicKind::HueRotate
    } else if n == "invert"@ {
        HelpTopicKind::Invert
    } else if n == "resize"@ {
        HelpTopicKind::Resize
    } else if n == "rotate90"@ {
        HelpTopicKind::Rotate90
    } else if n == "rotate180"@ {
        HelpTopicKind::Rotate180
    } else if n == "rotate270"@ {
        HelpTopicKind::Rotate270
    } else if n == "unsharpen"@ {
        HelpTopicKind::Unsharpen
    } else {
        HelpTopicKind::Unavailable
    }
}

/// The help page of a topic.
pub open spec fn topic_text(k: HelpTopicKind) -> Seq<char> {
    match k {
        HelpTopicKind::Script => "Image operations script\n\nSyntax: statements separated by ';', each an operation name followed by its arguments, e.g. `blur 1.5; rotate90; resize 100 100`. Integers, unsigned integers and floating point numbers are accepted where the operation asks for them.\n"@,
        HelpTopicKind::Blur => "blur <fp>\n\nPerforms a Gaussian blur on the image. An argument below 0.0 will use 1.0 instead.\n"@,
        HelpTopicKind::Brighten => "brighten <int>\n\nCreate a brightened version of the image.\n"@,
        HelpTopicKind::Contrast => "contrast <fp>\n\nAdjust the contrast of the image.\n"@,
        HelpTopicKind::Filter3x3 => "filter3x3 <fp9x>\n\nApply a 3 by 3 convolution filter.\n"@,
        HelpTopicKind::FlipH => "fliph\n\nFlips the image on the horizontal axis.\n"@,
        HelpTopicKind::FlipV => "flipv\n\nFlips the image on the vertical axis.\n"@,
        HelpTopicKind::GrayScale => "grayscale\n\nTransform each pixel to only hold an intensity of light value. Reduces the color space to contain only gray monochromatic values.\n"@,
        HelpTopicKind::HueRotate => "huerotate <int>\n\nRotates the hue, argument is in degrees. Rotates <int>%360 degrees.\n"@,
        HelpTopicKind::Invert => "invert\n\nInvert the colours of an image.\n"@,
        HelpTopicKind::Resize => "resize <uint> <uint>\n\nResize the image to x by y pixels. Can both up- and downscale.\n"@,
        HelpTopicKind::Rotate90 => "rotate90\n\nRotate an image 90 degrees.\n"@,
        HelpTopicKind::Rotate180 => "rotate180\n\nRotate an image 180 degrees.\n"@,
        HelpTopicKind::Rotate270 => "rotate270\n\nRotate an image 270 degrees.\n"@,
        HelpTopicKind::Unsharpen => "unsharpen <fp> <int>\n\nApplies an unsharpen mask to the image. The first parameter defines how much the image should be blurred and the second parameter defines a threshold. If the difference between the original and blurred image is at least the threshold, they will be subtracted from each other. Can be used to sharpen an image.\n"@,
        HelpTopicKind::Unavailable => ""@,
    }
}

impl HelpTopicKind {
    /// The name of the topic (see [`topic_name`]).
    pub fn name(&self) -> (r: String)
        ensures
            r@ == topic_name(*self),
    {
        let text = match self {
            HelpTopicKind::Script => "script",
            HelpTopicKind::Blur => "blur",
            HelpTopicKind::Brighten => "brighten",
            HelpTopicKind::Contrast => "contrast",
            HelpTopicKind::Filter3x3 => "filter3x3",
            HelpTopicKind::FlipH => "fliph",
            HelpTopicKind::FlipV => "flipv",
            HelpTopicKind::GrayScale => "grayscale",
            HelpTopicKind::HueRotate => "huerotate",
            HelpTopicKind::Invert => "invert",
            HelpTopicKind::Resize => "resize",
            HelpTopicKind::Rotate90 => "rotate90",
            HelpTopicKind::Rotate180 => "rotate180",
            HelpTopicKind::Rotate270 => "rotate270",
            HelpTopicKind::Unsharpen => "unsharpen",
            HelpTopicKind::Unavailable => "",
        };
        String::from_str(text)
    }

    /// The topic a name asks for (see [`topic_of_name`]).
    pub fn from_name(topic: &str) -> (r: HelpTopicKind)
        ensures
            r == topic_of_name(topic@),
    {
        if text_equals(topic, "script") {
            HelpTopicKind::Script
        } else if text_equals(topic, "blur") {
            HelpTopicKind::Blur
        } else if text_equals(topic, "brighten") {
            HelpTopicKind::Brighten
        } else if text_equals(topic, "contrast") {
            HelpTopicKind::Contrast
        } else if text_equals(topic, "filter3x3") {
            HelpTopicKind::Filter3x3
        } else if text_equals(topic, "fliph") {
            HelpTopicKind::FlipH
        } else if text_equals(topic, "flipv") {
            HelpTopicKind::FlipV
        } else if text_equals(topic, "grayscale") {
            HelpTopicKind::GrayScale
        } else if text_equals(topic, "huerotate") {
            HelpTopicKind::HueRotate
        } else if text_equals(topic, "invert") {
            HelpTopicKind::Invert
        } else if text_equals(topic, "resize") {
            HelpTopicKind::Resize
        } else if text_equals(topic, "rotate90") {
            HelpTopicKind::Rotate90
        } else if text_equals(topic, "rotate180") {
            HelpTopicKind::Rotate180
        } else if text_equals(topic, "rotate270") {
            HelpTopicKind::Rotate270
        } else if text_equals(topic, "unsharpen") {
            HelpTopicKind::Unsharpen
        } else {
            HelpTopicKind::Unavailable
        }
    }

    /// The help page of an available topic (see [`topic_text`]).
    pub fn text(&self) -> (r: String)
        requires
            *self != HelpTopicKind::Unavailable,
        ensures
            r@ == topic_text(*self),
    {
        let page = match self {
            HelpTopicKind::Script => "Image operations script\n\nSyntax: statements separated by ';', each an operation name followed by its arguments, e.g. `blur 1.5; rotate90; resize 100 100`. Integers, unsigned integers and floating point numbers are accepted where the operation asks for them.\n",
            HelpTopicKind::Blur => "blur <fp>\n\nPerforms a Gaussian blur on the image. An argument below 0.0 will use 1.0 instead.\n",
            HelpTopicKind::Brighten => "brighten <int>\n\nCreate a brightened version of the image.\n",
            HelpTopicKind::Contrast => "contrast <fp>\n\nAdjust the contrast of the image.\n",
            HelpTopicKind::Filter3x3 => "filter3x3 <fp9x>\n\nApply a 3 by 3 convolution filter.\n",
            HelpTopicKind::FlipH => "fliph\n\nFlips the image on the horizontal axis.\n",
            HelpTopicKind::FlipV => "flipv\n\nFlips the image on the vertical axis.\n",
            HelpTopicKind::GrayScale => "grayscale\n\nTransform each pixel to only hold an intensity of light value. Reduces the color space to contain only gray monochromatic values.\n",
            HelpTopicKind::HueRotate => "huerotate <int>\n\nRotates the hue, argument is in degrees. Rotates <int>%360 degrees.\n",
            HelpTopicKind::Invert => "invert\n\nInvert the colours of an image.\n",
            HelpTopicKind::Resize => "resize <uint> <uint>\n\nResize the image to x by y pixels. Can both up- and downscale.\n",
            HelpTopicKind::Rotate90 => "rotate90\n\nRotate an image 90 degrees.\n",
            HelpTopicKind::Rotate180 => "rotate180\n\nRotate an image 180 degrees.\n",
            HelpTopicKind::Rotate270 => "rotate270\n\nRotate an image 270 degrees.\n",
            HelpTopicKind::Unsharpen => "unsharpen <fp> <int>\n\nApplies an unsharpen mask to the image. The first parameter defines how much the image should be blurred and the second parameter defines a threshold. If the difference between the original and blurred image is at least the threshold, they will be subtracted from each other. Can be used to sharpen an image.\n",
            HelpTopicKind::Unavailable => "",
        };
        String::from_str(page)
    }
}

/// Asking for a topic by its name gives that topic back.
pub proof fn lemma_topic_name_round_trip(k: HelpTopicKind)
    ensures
        topic_of_name(topic_name(k)) == k,
{
    reveal_strlit("script");
    reveal_strlit("blur");
    reveal_strlit("brighten");
    reveal_strlit("contrast");
    reveal_strlit("filter3x3");
    reveal_strlit("fliph");
    reveal_strlit("flipv");
    reveal_strlit("grayscale");
    reveal_strlit("huerotate");
    reveal_strlit("invert");
    reveal_strlit("resize");
    reveal_strlit("rotate90");
    reveal_strlit("rotate180");
    reveal_strlit("rotate270");
    reveal_strlit("unsharpen");
    reveal_strlit("");
    assert("script"@[0] == 's');
    assert("blur"@[0] == 'b');
    assert("brighten"@[0] == 'b');
    assert("contrast"@[0] == 'c');
    assert("filter3x3"@[0] == 'f');
    assert("fliph"@[0] == 'f');
    assert("flipv"@[0] == 'f');
    assert("grayscale"@[0] == 'g');
    assert("huerotate"@[0] == 'h');
    assert("invert"@[0] == 'i');
    assert("resize"@[0] == 'r');
    assert("rotate90"@[0] == 'r');
    assert("rotate180"@[0] == 'r');
    assert("rotate270"@[0] == 'r');
    assert("unsharpen"@[0] == 'u');
    assert("script"@.len() == 6);
    assert("blur"@.len() == 4);
    assert("brighten"@.len() == 8);
    assert("contrast"@.len() == 8);
    assert("filter3x3"@.len() == 9);
    assert("fliph"@.len() == 5);
    assert("flipv"@.len() == 5);
    assert("grayscale"@.len() == 9);
    assert("huerotate"@.len() == 9);
    assert("invert"@.len() == 6);
    assert("resize"@.len() == 6);
    assert("rotate90"@.len() == 8);
    assert("rotate180"@.len() == 9);
    assert("rotate270"@.len() == 9);
    assert("unsharpen"@.len() == 9);
    assert("brighten"@[1] == 'r');
    assert("blur"@[1] == 'l');
    assert(""@.len() == 0);
    assert("fliph"@[4] == 'h');
    assert("flipv"@[4] == 'v');
    assert("rotate180"@[6] == '1');
    assert("rotate270"@[6] == '2');
    match k {
        HelpTopicKind::Script => {
            assert(topic_of_name(topic_name(HelpTopicKind::Script)) == HelpTopicKind::Script);
        },
        HelpTopicKind::Blur => {
            assert(topic_of_name(topic_name(HelpTopicKind::Blur)) == HelpTopicKind::Blur);
        },
        HelpTopicKind::Brighten => {
            assert(topic_of_name(topic_name(HelpTopicKind::Brighten)) == HelpTopicKind::Brighten);
        },
        HelpTopicKind::Contrast => {
            assert(topic_of_name(topic_name(HelpTopicKind::Contrast)) == HelpTopicKind::Contrast);
        },
        HelpTopicKind::Filter3x3 => {
            assert(topic_of_name(topic_name(HelpTopicKind::Filter3x3)) == HelpTopicKind::Filter3x3);
        },
        HelpTopicKind::FlipH => {
            assert(topic_of_name(topic_name(HelpTopicKind::FlipH)) == HelpTopicKind::FlipH);
        },
        HelpTopicKind::FlipV => {
            assert(topic_of_name(topic_name(HelpTopicKind::FlipV)) == HelpTopicKind::FlipV);
        },
        HelpTopicKind::GrayScale => {
            assert(topic_of_name(topic_name(HelpTopicKind::GrayScale)) == HelpTopicKind::GrayScale);
        },
        HelpTopicKind::HueRotate => {
            assert(topic_of_name(topic_name(HelpTopicKind::HueRotate)) == HelpTopicKind::HueRotate);
        },
        HelpTopicKind::Invert => {
            assert(topic_of_name(topic_name(HelpTopicKind::Invert)) == HelpTopicKind::Invert);
        },
        HelpTopicKind::Resize => {
            assert(topic_of_name(topic_name(HelpTopicKind::Resize)) == HelpTopicKind::Resize);
        },
        HelpTopicKind::Rotate90 => {
            assert(topic_of_name(topic_name(HelpTopicKind::Rotate90)) == HelpTopicKind::Rotate90);
        },
        HelpTopicKind::Rotate180 => {
            assert(topic_of_name(topic_name(HelpTopicKind::Rotate180)) == HelpTopicKind::Rotate180);
        },
        HelpTopicKind::Rotate270 => {
            assert(topic_of_name(topic_name(HelpTopicKind::Rotate270)) == HelpTopicKind::Rotate270);
        },
        HelpTopicKind::Unsharpen => {
            assert(topic_of_name(topic_name(HelpTopicKind::Unsharpen)) == HelpTopicKind::Unsharpen);
        },
        HelpTopicKind::Unavailable => {
            assert(topic_of_name(topic_name(HelpTopicKind::Unavailable)) == HelpTopicKind::Unavailable);
        },
    }
}

/// Two topics are equal exactly when their names are.
pub proof fn lemma_topic_name_injective(a: HelpTopicKind, b: HelpTopicKind)
    ensures
        (topic_name(a) == topic_name(b)) <==> (a == b),
{
    lemma_topic_name_round_trip(a);
    lemma_topic_name_round_trip(b);
}

// ---------------------------------------------------------------------------
// Ordering names
// ---------------------------------------------------------------------------

/// The lexicographic order of texts by character code: `a` comes no later
/// than `b`.
pub open spec fn lex_le(a: Seq<char>, b: Seq<char>) -> bool
    decreases a.len(),
{
    if a.len() == 0 {
        true
    } else if b.len() == 0 {
        false
    } else if a[0] != b[0] {
        (a[0] as int) < (b[0] as int)
    } else {
        lex_le(a.drop_first(), b.drop_first())
    }
}

pub proof fn lemma_lex_total(a: Seq<char>, b: Seq<char>)
    ensures
        lex_le(a, b) || lex_le(b, a),
    decreases a.len(),
{
    if a.len() > 0 && b.len() > 0 {
        if a[0] == b[0] {
            lemma_lex_total(a.drop_first(), b.drop_first());
        } else {
            assert((a[0] as int) != (b[0] as int));
        }
    }
}

pub proof fn lemma_lex_antisymmetric(a: Seq<char>, b: Seq<char>)
    requires
        lex_le(a, b),
        lex_le(b, a),
    ensures
        a == b,
    decreases a.len(),
{
    if a.len() > 0 && b.len() > 0 {
        if a[0] == b[0] {
            lemma_lex_antisymmetric(a.drop_first(), b.drop_first());
            assert(a =~= seq![a[0]] + a.drop_first());
            assert(b =~= seq![b[0]] + b.drop_first());
        }
    } else {
        assert(a.len() == 0 && b.len() == 0);
        assert(a =~= b);
    }
}

pub proof fn lemma_lex_transitive(a: Seq<char>, b: Seq<char>, c: Seq<char>)
    requires
        lex_le(a, b),
        lex_le(b, c),
    ensures
        lex_le(a, c),
    decreases a.len(),
{
    if a.len() > 0 && b.len() > 0 && c.len() > 0 && a[0] == b[0] && b[0] == c[0] {
        lemma_lex_transitive(a.drop_first(), b.drop_first(), c.drop_first());
    }
}

pub open spec fn lex_sorted(s: Seq<Seq<char>>) -> bool {
    forall|i: int, j: int| 0 <= i < j < s.len() ==> lex_le(s[i], s[j])
}

fn lex_le_exec(a: &Vec<char>, b: &Vec<char>) -> (r: bool)
    ensures
        r == lex_le(a@, b@),
{
    let mut i: usize = 0;
    assert(a@.skip(0) =~= a@);
    assert(b@.skip(0) =~= b@);
    while i < a.len()
        invariant
            i <= a.len(),
            i <= b.len(),
            lex_le(a@, b@) == lex_le(a@.skip(i as int), b@.skip(i as int)),
        decreases a.len() - i,
    {
        if i == b.len() {
            return false;
        }
        assert(a@.skip(i as int).drop_first() =~= a@.skip(i + 1));
        assert(b@.skip(i as int).drop_first() =~= b@.skip(i + 1));
        assert(a@.skip(i as int)[0] == a@[i as int]);
        assert(b@.skip(i as int)[0] == b@[i as int]);
        let ca = a[i];
        let cb = b[i];
        if ca != cb {
            return ca < cb;
        }
        i += 1;
    }
    true
}

/// Sorts texts in lexicographic order (see [`lex_le`]).
pub fn sort_texts(v: Vec<Vec<char>>) -> (r: Vec<Vec<char>>)
    ensures
        lex_sorted(r@.map_values(|c: Vec<char>| c@)),
        r@.map_values(|c: Vec<char>| c@).to_multiset() == v@.map_values(|c: Vec<char>| c@).to_multiset(),
{
    broadcast use vstd::seq_lib::to_multiset_insert;
    let ghost all = v@.map_values(|c: Vec<char>| c@);
    let mut out: Vec<Vec<char>> = Vec::new();
    let mut i: usize = 0;
    assert(all.take(0) =~= Seq::<Seq<char>>::empty());
    assert(out@.map_values(|c: Vec<char>| c@) =~= Seq::<Seq<char>>::empty());
    while i < v.len()
        invariant
            i <= v.len(),
            all == v@.map_values(|c: Vec<char>| c@),
            lex_sorted(out@.map_values(|c: Vec<char>| c@)),
            out@.map_values(|c: Vec<char>| c@).to_multiset() == all.take(i as int).to_multiset(),
        decreases v.len() - i,
    {
        let x = crate::text::copy_chars(&v[i]);
        let ghost xv = x@;
        let ghost o = out@.map_values(|c: Vec<char>| c@);
        let mut p: usize = 0;
        while p < out.len() && !lex_le_exec(&x, &out[p])
            invariant
                xv == x@,
                p <= out.len(),
                o == out@.map_values(|c: Vec<char>| c@),
                forall|k: int| 0 <= k < p ==> !lex_le(xv, #[trigger] o[k]),
            decreases out.len() - p,
        {
            p += 1;
        }
        proof {
            assert forall|k: int| 0 <= k < p implies lex_le(#[trigger] o[k], xv) by {
                lemma_lex_total(o[k], xv);
            }
        }
        out.insert(p, x);
        proof {
            let n = out@.map_values(|c: Vec<char>| c@);
            assert(n =~= o.insert(p as int, xv));
            vstd::seq_lib::to_multiset_insert(o, p as int, xv);
            assert forall|a: int, b: int| 0 <= a < b < n.len() implies lex_le(n[a], n[b]) by {
                if a < p && b == p {
                } else if a == p && b > p {
                    assert(n[b] == o[b - 1]);
                    if p < o.len() {
                        assert(lex_le(xv, o[p as int]));
                        if b - 1 > p {
                            lemma_lex_transitive(xv, o[p as int], o[b - 1]);
                        }
                    }
                } else if a < p && b > p {
                    assert(n[b] == o[b - 1]);
                } else if a > p {
                    assert(n[a] == o[a - 1] && n[b] == o[b - 1]);
                }
            }
            assert(all.take(i + 1) =~= all.take(i as int).push(all[i as int]));
            assert(all[i as int] == xv);
            vstd::seq_lib::to_multiset_build(all.take(i as int), xv);
        }
        i += 1;
    }
    assert(all.take(v.len() as int) =~= all);
    out
}

// ---------------------------------------------------------------------------
// The index of topics
// ---------------------------------------------------------------------------

/// A help page: the topic's name and text.
#[derive(Debug)]
pub struct HelpTopic {
    name: String,
    pub help_text: String,
}

impl View for HelpTopic {
    type V = (Seq<char>, Seq<char>);

    closed spec fn view(&self) -> (Seq<char>, Seq<char>) {
        (self.name@, self.help_text@)
    }
}

impl HelpTopic {
    /// The name of the topic.
    pub fn get_name(&self) -> (r: &str)
        ensures
            r@ == self@.0,
    {
        self.name.as_str()
    }

    /// The help text of the topic.
    pub fn get_text(&self) -> (r: &str)
        ensures
            r@ == self@.1,
    {
        self.help_text.as_str()
    }
}

/// The page kept for a topic.
pub open spec fn page_of(k: HelpTopicKind) -> (Seq<char>, Seq<char>) {
    (topic_name(k), topic_text(k))
}

pub type HelpEntries = Vec<(HelpTopicKind, HelpTopic)>;

pub open spec fn entries_view(s: Seq<(HelpTopicKind, HelpTopic)>) -> Seq<(HelpTopicKind, (Seq<char>, Seq<char>))> {
    s.map_values(|e: (HelpTopicKind, HelpTopic)| (e.0, e.1@))
}

/// No topic occurs twice.
pub open spec fn distinct_topics(s: Seq<(HelpTopicKind, (Seq<char>, Seq<char>))>) -> bool {
    forall|i: int, j: int| 0 <= i < j < s.len() ==> s[i].0 != s[j].0
}

/// The pages by topic.
pub open spec fn entries_map(s: Seq<(HelpTopicKind, (Seq<char>, Seq<char>))>) -> Map<HelpTopicKind, (Seq<char>, Seq<char>)>
    decreases s.len(),
{
    if s.len() == 0 {
        Map::empty()
    } else {
        entries_map(s.drop_last()).insert(s.last().0, s.last().1)
    }
}

proof fn lemma_entries_map(s: Seq<(HelpTopicKind, (Seq<char>, Seq<char>))>)
    requires
        distinct_topics(s),
    ensures
        forall|i: int| 0 <= i < s.len() ==> entries_map(s).contains_key(#[trigger] s[i].0) && entries_map(s)[s[i].0] == s[i].1,
        forall|k: HelpTopicKind| entries_map(s).contains_key(k) ==> exists|i: int| 0 <= i < s.len() && #[trigger] s[i].0 == k,
    decreases s.len(),
{
    if s.len() > 0 {
        let t = s.drop_last();
        assert(distinct_topics(t)) by {
            assert forall|i: int, j: int| 0 <= i < j < t.len() implies t[i].0 != t[j].0 by {
                assert(t[i] == s[i] && t[j] == s[j]);
            }
        }
        lemma_entries_map(t);
        assert forall|i: int| 0 <= i < s.len() implies entries_map(s).contains_key(#[trigger] s[i].0) && entries_map(s)[s[i].0] == s[i].1 by {
            if i < s.len() - 1 {
                assert(t[i] == s[i]);
                assert(s[i].0 != s[s.len() - 1].0);
            }
        }
        assert forall|k: HelpTopicKind| entries_map(s).contains_key(k) implies exists|i: int| 0 <= i < s.len() && #[trigger] s[i].0 == k by {
            if k != s.last().0 {
                assert(entries_map(t).contains_key(k));
                let i = choose|i: int| 0 <= i < t.len() && #[trigger] t[i].0 == k;
                assert(s[i] == t[i]);
            } else {
                assert(s[s.len() - 1].0 == k);
            }
        }
    }
}

/// Every entry holds the page of its topic.
pub open spec fn pages_match(s: Seq<(HelpTopicKind, (Seq<char>, Seq<char>))>) -> bool {
    forall|i: int| 0 <= i < s.len() ==> (#[trigger] s[i]).1 == page_of(s[i].0)
}

/// Adds the page of an available topic to the entries, replacing the page
/// already kept for it.
pub fn insert_help_entry(dict: &mut HelpEntries, kind: HelpTopicKind)
    requires
        kind != HelpTopicKind::Unavailable,
        distinct_topics(entries_view(old(dict)@)),
    ensures
        distinct_topics(entries_view(final(dict)@)),
        pages_match(entries_view(old(dict)@)) ==> pages_match(entries_view(final(dict)@)),
        entries_map(entries_view(final(dict)@)) == entries_map(entries_view(old(dict)@)).insert(kind, page_of(kind)),
{
    let ghost before = entries_view(dict@);
    proof {
        lemma_entries_map(before);
    }
    let topic = HelpTopic { name: kind.name(), help_text: kind.text() };
    let mut i: usize = 0;
    while i < dict.len() && dict[i].0 != kind
        invariant
            i <= dict.len(),
            before == entries_view(dict@),
            forall|j: int| 0 <= j < i ==> before[j].0 != kind,
        decreases dict.len() - i,
    {
        assert(before[i as int].0 == dict@[i as int].0);
        i += 1;
    }
    if i < dict.len() {
        assert(before[i as int].0 == dict@[i as int].0);
        assert(before[i as int].0 == kind);
        dict.set(i, (kind, topic));
        proof {
            let after = entries_view(dict@);
            assert(after =~= before.update(i as int, (kind, page_of(kind))));
            assert(distinct_topics(after)) by {
                assert forall|a: int, b: int| 0 <= a < b < after.len() implies after[a].0 != after[b].0 by {
                    assert(after[a].0 == before[a].0 && after[b].0 == before[b].0);
                }
            }
            lemma_entries_map(after);
            assert(entries_map(after) =~= entries_map(before).insert(kind, page_of(kind))) by {
                assert forall|k: HelpTopicKind| #[trigger] entries_map(after).contains_key(k) <==> entries_map(before).insert(kind, page_of(kind)).contains_key(k) by {
                    if entries_map(after).contains_key(k) {
                        let j = choose|j: int| 0 <= j < after.len() && #[trigger] after[j].0 == k;
                        assert(before[j].0 == k);
                    }
                    if entries_map(before).contains_key(k) {
                        let j = choose|j: int| 0 <= j < before.len() && #[trigger] before[j].0 == k;
                        assert(after[j].0 == k);
                    }
                }
                assert forall|k: HelpTopicKind| #[trigger] entries_map(after).contains_key(k) implies entries_map(after)[k] == entries_map(before).insert(kind, page_of(kind))[k] by {
                    let j = choose|j: int| 0 <= j < after.len() && #[trigger] after[j].0 == k;
                    assert(before[j].0 == k);
                }
            }
        }
    } else {
        dict.push((kind, topic));
        proof {
            let after = entries_view(dict@);
            assert(after =~= before.push((kind, page_of(kind))));
            assert(after.drop_last() =~= before);
        }
    }
}

/// The index of the user manual: a page for every available topic.
pub struct HelpIndex {
    index: HelpEntries,
}

/// A page for every available topic.
pub open spec fn full_index() -> Map<HelpTopicKind, (Seq<char>, Seq<char>)> {
    Map::new(|k: HelpTopicKind| k != HelpTopicKind::Unavailable, |k: HelpTopicKind| page_of(k))
}

impl View for HelpIndex {
    type V = Map<HelpTopicKind, (Seq<char>, Seq<char>)>;

    closed spec fn view(&self) -> Map<HelpTopicKind, (Seq<char>, Seq<char>)> {
        entries_map(entries_view(self.index@))
    }
}

impl HelpIndex {
    #[verifier::type_invariant]
    closed spec fn wf(self) -> bool {
        &&& distinct_topics(entries_view(self.index@))
        &&& pages_match(entries_view(self.index@))
    }

    /// The index with a page for every available topic.
    pub fn new() -> (r: HelpIndex)
        ensures
            r@ == full_index(),
    {
        let mut dict: HelpEntries = Vec::new();
        assert(entries_view(dict@) =~= Seq::<(HelpTopicKind, (Seq<char>, Seq<char>))>::empty());
        assert(pages_match(entries_view(dict@)));
        insert_help_entry(&mut dict, HelpTopicKind::Script);
        insert_help_entry(&mut dict, HelpTopicKind::Blur);
        insert_help_entry(&mut dict, HelpTopicKind::Brighten);
        insert_help_entry(&mut dict, HelpTopicKind::Contrast);
        insert_help_entry(&mut dict, HelpTopicKind::Filter3x3);
        insert_help_entry(&mut dict, HelpTopicKind::FlipH);
        insert_help_entry(&mut dict, HelpTopicKind::FlipV);
        insert_help_entry(&mut dict, HelpTopicKind::GrayScale);
        insert_help_entry(&mut dict, HelpTopicKind::HueRotate);
        insert_help_entry(&mut dict, HelpTopicKind::Invert);
        insert_help_entry(&mut dict, HelpTopicKind::Resize);
        insert_help_entry(&mut dict, HelpTopicKind::Rotate90);
        insert_help_entry(&mut dict, HelpTopicKind::Rotate180);
        insert_help_entry(&mut dict, HelpTopicKind::Rotate270);
        insert_help_entry(&mut dict, HelpTopicKind::Unsharpen);
        let r = HelpIndex { index: dict };
        assert(r@ =~= full_index()) by {
            assert forall|k: HelpTopicKind| #[trigger] r@.contains_key(k) <==> full_index().contains_key(k) by {
                match k {
                    HelpTopicKind::Unavailable => {},
                    _ => {},
                }
            }
        }
        r
    }

    /// The page of the topic a name asks for, if that topic is in the index.
    pub fn get_topic(&self, name: &str) -> (r: Option<&HelpTopic>)
        ensures
            match r {
                Some(t) => self@.contains_key(topic_of_name(name@)) && t@ == self@[topic_of_name(name@)],
                None => !self@.contains_key(topic_of_name(name@)),
            },
    {
        proof {
            use_type_invariant(self);
            lemma_entries_map(entries_view(self.index@));
        }
        let topic = HelpTopicKind::from_name(name);
        let ghost es = entries_view(self.index@);
        let mut i: usize = 0;
        while i < self.index.len()
            invariant
                i <= self.index.len(),
                es == entries_view(self.index@),
                topic == topic_of_name(name@),
                forall|j: int| 0 <= j < i ==> es[j].0 != topic,
            decreases self.index.len() - i,
        {
            assert(es[i as int] == (self.index@[i as int].0, self.index@[i as int].1@));
            if self.index[i].0 == topic {
                assert(es[i as int].0 == topic);
                proof {
                    use_type_invariant(self);
                    lemma_entries_map(es);
                }
                return Some(&self.index[i].1);
            }
            i += 1;
        }
        proof {
            if entries_map(es).contains_key(topic) {
                let j = choose|j: int| 0 <= j < es.len() && #[trigger] es[j].0 == topic;
            }
        }
        None
    }

    /// The names of the topics in the index, each once, in lexicographic
    /// order, separated by a new line, a tab and a bullet.
    pub fn get_available_topics(&self) -> (r: String)
        ensures
            r@ == topics_listing(self@),
            exists|ns: Seq<Seq<char>>|
                {
                    &&& lex_sorted(ns)
                    &&& ns.no_duplicates()
                    &&& forall|x: Seq<char>| ns.contains(x) <==> exists|k: HelpTopicKind|
                        #[trigger] self@.contains_key(k) && self@[k].0 == x
                    &&& r@ == join_topics(ns)
                },
    {
        proof {
            use_type_invariant(self);
        }
        let ghost es = entries_view(self.index@);
        let mut names: Vec<Vec<char>> = Vec::new();
        let mut i: usize = 0;
        while i < self.index.len()
            invariant
                i <= self.index.len(),
                es == entries_view(self.index@),
                names@.map_values(|c: Vec<char>| c@) =~= es.take(i as int).map_values(
                    |e: (HelpTopicKind, (Seq<char>, Seq<char>))| e.1.0,
                ),
            decreases self.index.len() - i,
        {
            let n = crate::text::chars_of(self.index[i].1.get_name());
            let ghost before = names@.map_values(|c: Vec<char>| c@);
            names.push(n);
            assert(es[i as int] == (self.index@[i as int].0, self.index@[i as int].1@));
            assert(names@.map_values(|c: Vec<char>| c@) =~= before.push(es[i as int].1.0));
            i += 1;
        }
        let ghost unsorted = names@.map_values(|c: Vec<char>| c@);
        assert(es.take(es.len() as int) =~= es);
        let sorted = sort_texts(names);
        let ghost ns = sorted@.map_values(|c: Vec<char>| c@);
        proof {
            lemma_entries_map(es);
            broadcast use vstd::seq_lib::to_multiset_contains;
            assert(unsorted.no_duplicates()) by {
                assert forall|a: int, b: int| 0 <= a < unsorted.len() && 0 <= b < unsorted.len() && a != b implies unsorted[a] != unsorted[b] by {
                    assert(unsorted[a] == topic_name(es[a].0));
                    assert(unsorted[b] == topic_name(es[b].0));
                    lemma_topic_name_injective(es[a].0, es[b].0);
                }
            }
            unsorted.lemma_multiset_has_no_duplicates();
            assert forall|x: Seq<char>| ns.to_multiset().contains(x) implies ns.to_multiset().count(x) == 1 by {
                assert(unsorted.to_multiset().contains(x));
            }
            ns.lemma_multiset_has_no_duplicates_conv();
            assert forall|x: Seq<char>| ns.contains(x) <==> exists|k: HelpTopicKind|
                #[trigger] self@.contains_key(k) && self@[k].0 == x by {
                assert(ns.contains(x) <==> ns.to_multiset().count(x) > 0);
                assert(unsorted.contains(x) <==> unsorted.to_multiset().count(x) > 0);
                if unsorted.contains(x) {
                    let a = choose|a: int| 0 <= a < unsorted.len() && unsorted[a] == x;
                    assert(self@.contains_key(es[a].0));
                }
                if exists|k: HelpTopicKind| #[trigger] self@.contains_key(k) && self@[k].0 == x {
                    let k = choose|k: HelpTopicKind| #[trigger] self@.contains_key(k) && self@[k].0 == x;
                    let a = choose|a: int| 0 <= a < es.len() && #[trigger] es[a].0 == k;
                    assert(unsorted[a] == x);
                }
            }
            assert(is_name_listing(ns, self@));
            let other = choose|t: Seq<Seq<char>>| is_name_listing(t, self@);
            lemma_sorted_texts_unique(ns, other);
        }
        join_texts(&sorted)
    }
}

/// `ns` lists the names of the topics in `m`, each once, in lexicographic order.
pub open spec fn is_name_listing(ns: Seq<Seq<char>>, m: Map<HelpTopicKind, (Seq<char>, Seq<char>)>) -> bool {
    &&& lex_sorted(ns)
    &&& ns.no_duplicates()
    &&& forall|x: Seq<char>| ns.contains(x) <==> exists|k: HelpTopicKind|
        #[trigger] m.contains_key(k) && m[k].0 == x
}

/// The listing of the topics in `m`: their names, each once, in
/// lexicographic order, separated by a new line, a tab and a bullet.
pub open spec fn topics_listing(m: Map<HelpTopicKind, (Seq<char>, Seq<char>)>) -> Seq<char> {
    join_topics(choose|ns: Seq<Seq<char>>| is_name_listing(ns, m))
}

/// Texts separated by a new line, a tab and a bullet.
pub open spec fn join_topics(ns: Seq<Seq<char>>) -> Seq<char>
    decreases ns.len(),
{
    if ns.len() == 0 {
        seq![]
    } else if ns.len() == 1 {
        ns[0]
    } else {
        join_topics(ns.drop_last()) + "\n\t* "@ + ns.last()
    }
}

fn join_texts(v: &Vec<Vec<char>>) -> (r: String)
    ensures
        r@ == join_topics(v@.map_values(|c: Vec<char>| c@)),
{
    let ghost all = v@.map_values(|c: Vec<char>| c@);
    let mut out = String::new();
    let mut i: usize = 0;
    while i < v.len()
        invariant
            i <= v.len(),
            all == v@.map_values(|c: Vec<char>| c@),
            out@ == join_topics(all.take(i as int)),
        decreases v.len() - i,
    {
        let ghost before = out@;
        if i > 0 {
            crate::text::push_str_chars(&mut out, "\n\t* ");
        }
        let piece = crate::text::string_of(&v[i]);
        crate::text::push_str_chars(&mut out, piece.as_str());
        proof {
            let next = all.take(i + 1);
            assert(next.drop_last() =~= all.take(i as int));
            assert(next.last() == all[i as int]);
            if i == 0 {
                assert(out@ =~= all[0]);
            }
        }
        i += 1;
    }
    assert(all.take(v.len() as int) =~= all);
    out
}

/// The index is determined by its topics: two lexicographically sorted
/// sequences without duplicates that hold the same texts are the same.
pub proof fn lemma_sorted_texts_unique(a: Seq<Seq<char>>, b: Seq<Seq<char>>)
    requires
        lex_sorted(a),
        lex_sorted(b),
        a.no_duplicates(),
        b.no_duplicates(),
        forall|x: Seq<char>| a.contains(x) <==> b.contains(x),
    ensures
        a == b,
    decreases a.len(),
{
    if a.len() == 0 || b.len() == 0 {
        if a.len() > 0 {
            assert(a.contains(a[0]));
        }
        if b.len() > 0 {
            assert(b.contains(b[0]));
        }
        assert(a =~= b);
    } else {
        assert(a.contains(a[0]));
        assert(b.contains(b[0]));
        let j = choose|j: int| 0 <= j < b.len() && b[j] == a[0];
        let k = choose|k: int| 0 <= k < a.len() && a[k] == b[0];
        if j > 0 {
            assert(lex_le(b[0], b[j]));
        }
        if k > 0 {
            assert(lex_le(a[0], a[k]));
        }
        lemma_lex_le_reflexive(a[0]);
        lemma_lex_antisymmetric(a[0], b[0]);
        let ta = a.drop_first();
        let tb = b.drop_first();
        assert forall|x: Seq<char>| ta.contains(x) <==> tb.contains(x) by {
            if ta.contains(x) {
                let p = choose|p: int| 0 <= p < ta.len() && ta[p] == x;
                assert(a[p + 1] == x);
                assert(a.contains(x));
                let q = choose|q: int| 0 <= q < b.len() && b[q] == x;
                assert(q != 0);
                assert(tb[q - 1] == x);
            }
            if tb.contains(x) {
                let p = choose|p: int| 0 <= p < tb.len() && tb[p] == x;
                assert(b[p + 1] == x);
                assert(b.contains(x));
                let q = choose|q: int| 0 <= q < a.len() && a[q] == x;
                assert(q != 0);
                assert(ta[q - 1] == x);
            }
        }
        assert(lex_sorted(ta)) by {
            assert forall|x: int, y: int| 0 <= x < y < ta.len() implies lex_le(ta[x], ta[y]) by {
                assert(ta[x] == a[x + 1] && ta[y] == a[y + 1]);
            }
        }
        assert(lex_sorted(tb)) by {
            assert forall|x: int, y: int| 0 <= x < y < tb.len() implies lex_le(tb[x], tb[y]) by {
                assert(tb[x] == b[x + 1] && tb[y] == b[y + 1]);
            }
        }
        lemma_sorted_texts_unique(ta, tb);
        assert(a =~= seq![a[0]] + ta);
        assert(b =~= seq![b[0]] + tb);
    }
}

proof fn lemma_lex_le_reflexive(a: Seq<char>)
    ensures
        lex_le(a, a),
    decreases a.len(),
{
    if a.len() > 0 {
        lemma_lex_le_reflexive(a.drop_first());
    }
}

// ---------------------------------------------------------------------------
// Showing the user manual
// ---------------------------------------------------------------------------

/// How showing the user manual ended.
#[derive(Debug, Clone, Copy, PartialEq, Eq, Structural)]
pub enum UserManualCompletedWith {
    PrintedTopic,
    PrintingNotRequested,
    ShowIndex,
    TopicNotFound,
}

pub open spec fn index_header() -> Seq<char> {
    "The following topics are available: \n\t* "@
}

pub open spec fn unavailable_header() -> Seq<char> {
    "This topic is unavailable in the user manual. The following topics are available: \n\t* "@
}

/// What is shown for a requested topic: `index` shows the listing of the
/// topics; an available topic (asked for in any case) its page; any other
/// name a note and the listing; nothing is shown when no topic is asked for.
pub open spec fn spec_show(topic: Option<Seq<char>>) -> (UserManualCompletedWith, Seq<char>) {
    match topic {
        None => (UserManualCompletedWith::PrintingNotRequested, seq![]),
        Some(t) => if t == "index"@ {
            (UserManualCompletedWith::ShowIndex, index_header() + topics_listing(full_index()))
        } else {
            let k = topic_of_name(unicode_lowercase(t));
            if k != HelpTopicKind::Unavailable {
                (UserManualCompletedWith::PrintedTopic, topic_text(k))
            } else {
                (UserManualCompletedWith::TopicNotFound, unavailable_header() + topics_listing(full_index()))
            }
        },
    }
}

/// Shows the user manual: decides what is printed.
#[derive(Debug, Default)]
pub struct UserManualPrinter;

impl UserManualPrinter {
    fn print_help(help: &HelpIndex, topic: &str) -> (r: (UserManualCompletedWith, String))
        requires
            help@ == full_index(),
        ensures
            ({
                let k = topic_of_name(unicode_lowercase(topic@));
                if k != HelpTopicKind::Unavailable {
                    r.0 == UserManualCompletedWith::PrintedTopic && r.1@ == topic_text(k)
                } else {
                    r.0 == UserManualCompletedWith::TopicNotFound && r.1@ == unavailable_header() + topics_listing(full_index())
                }
            }),
    {
        let lower = to_lowercase(topic);
        match help.get_topic(lower.as_str()) {
            Some(page) => (UserManualCompletedWith::PrintedTopic, String::from_str(page.get_text())),
            None => {
                let topics = help.get_available_topics();
                (UserManualCompletedWith::TopicNotFound, concat_text(
                    "This topic is unavailable in the user manual. The following topics are available: \n\t* ",
                    topics.as_str(),
                ))
            },
        }
    }

    /// What is shown for a requested topic (see [`spec_show`]): how it
    /// ended and the text to print.
    pub fn show(&self, topic: Option<&str>) -> (r: (UserManualCompletedWith, String))
        ensures
            r.0 == spec_show(match topic { Some(t) => Some(t@), None => None }).0,
            r.1@ == spec_show(match topic { Some(t) => Some(t@), None => None }).1,
    {
        match topic {
            Some(t) => {
                let help = HelpIndex::new();
                if text_equals(t, "index") {
                    let topics = help.get_available_topics();
                    (UserManualCompletedWith::ShowIndex, concat_text(
                        "The following topics are available: \n\t* ",
                        topics.as_str(),
                    ))
                } else {
                    UserManualPrinter::print_help(&help, t)
                }
            },
            None => (UserManualCompletedWith::PrintingNotRequested, String::new()),
        }
    }
}

/// Shows the help page a conversion's settings ask for.
#[derive(Debug)]
pub struct HelpDisplayProcessor;

impl HelpDisplayProcessor {
    pub fn new() -> (r: HelpDisplayProcessor) {
        HelpDisplayProcessor
    }

    /// The text to print for the requested topic, if one is requested;
    /// the tool stops after printing it.
    pub fn process(&self, config: &crate::config::Config) -> (r: Option<String>)
        ensures
            match config.user_manual {
                None => r is None,
                Some(t) => r matches Some(text) && text@ == spec_show(Some(t@)).1,
            },
    {
        match &config.user_manual {
            None => None,
            Some(t) => {
                let printer = UserManualPrinter;
                let (_, text) = printer.show(Some(t.as_str()));
                Some(text)
            },
        }
    }
}

} // verus!
