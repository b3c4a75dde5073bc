//! Content items ("arcs"): articles, videos and photos.
use vstd::prelude::*;

verus! {

/// The kind of a content item.
#[derive(Debug, Clone, Copy, PartialEq, Eq, Structural)]
pub enum ArcType {
    Article,
    Video,
    Photo,
}

impl ArcType {
    /// The lowercase name used in storage and URLs.
    pub open spec fn name(self) -> Seq<char> {
        match self {
            ArcType::Article => "article"@,
            ArcType::Video => "video"@,
            ArcType::Photo => "photo"@,
        }
    }

    /// The lowercase name of the kind.
    pub fn as_str(&self) -> (r: &str)
        ensures
            r@ == self.name(),
    {
        match self {
            ArcType::Article => "article",
            ArcType::Video => "video",
            ArcType::Photo => "photo",
        }
    }
}

/// A content item.
#[derive(Debug, Clone)]
pub struct Arc {
    pub id: String,
    pub title: String,
    pub arc_type: ArcType,
    pub body: Option<String>,
    pub summary: Option<String>,
    pub thumbnail: Option<String>,
    pub media_url: Option<String>,
    pub author_id: Option<String>,
    pub author_name: Option<String>,
    pub topics: Option<String>,
    pub created_at: String,
    pub view_count: u64,
}

/// The items of `all` of kind `t`, in order.
pub open spec fn of_type(all: Seq<Arc>, t: ArcType) -> Seq<Arc>
    decreases all.len(),
{
    if all.len() == 0 {
        Seq::<Arc>::empty()
    } else if all.last().arc_type == t {
        of_type(all.drop_last(), t).push(all.last())
    } else {
        of_type(all.drop_last(), t)
    }
}

/// At most the first three of `s`.
pub open spec fn first_three(s: Seq<Arc>) -> Seq<Arc> {
    if s.len() > 3 {
        s.subrange(0, 3)
    } else {
        s
    }
}

/// Splits the newest items for the home page into its three sections: the
/// first three videos, articles and photos, each in the given order.
pub fn pick_home_arcs(all: Vec<Arc>) -> (r: (Vec<Arc>, Vec<Arc>, Vec<Arc>))
    ensures
        r.0@ == first_three(of_type(all@, ArcType::Video)),
        r.1@ == first_three(of_type(all@, ArcType::Article)),
        r.2@ == first_three(of_type(all@, ArcType::Photo)),
{
    let ghost orig = all@;
    let mut rest = all;
    let mut videos: Vec<Arc> = Vec::new();
    let mut articles: Vec<Arc> = Vec::new();
    let mut photos: Vec<Arc> = Vec::new();
    let mut i: usize = 0;
    let n = rest.len();
    while rest.len() > 0
        invariant
            n == orig.len(),
            i + rest@.len() == orig.len(),
            rest@ == orig.subrange(i as int, orig.len() as int),
            videos@ == first_three(of_type(orig.subrange(0, i as int), ArcType::Video)),
            articles@ == first_three(of_type(orig.subrange(0, i as int), ArcType::Article)),
            photos@ == first_three(of_type(orig.subrange(0, i as int), ArcType::Photo)),
        decreases rest.len(),
    {
        let e = rest.remove(0);
        let ghost done = orig.subrange(0, i + 1);
        assert(done.drop_last() =~= orig.subrange(0, i as int));
        assert(done.last() == e);
        proof {
            lemma_first_three_push(of_type(orig.subrange(0, i as int), ArcType::Video), e);
            lemma_first_three_push(of_type(orig.subrange(0, i as int), ArcType::Article), e);
            lemma_first_three_push(of_type(orig.subrange(0, i as int), ArcType::Photo), e);
        }
        match e.arc_type {
            ArcType::Video => {
                if videos.len() < 3 {
                    videos.push(e);
                }
            },
            ArcType::Article => {
                if articles.len() < 3 {
                    articles.push(e);
                }
            },
            ArcType::Photo => {
                if photos.len() < 3 {
                    photos.push(e);
                }
            },
        }
        i += 1;
        assert(rest@ =~= orig.subrange(i as int, orig.len() as int));
    }
    assert(orig.subrange(0, orig.len() as int) =~= orig);
    (videos, articles, photos)
}

proof fn lemma_first_three_push(s: Seq<Arc>, e: Arc)
    ensures
        first_three(s.push(e)) == if first_three(s).len() < 3 {
            first_three(s).push(e)
        } else {
            first_three(s)
        },
{
    if s.len() >= 3 {
        assert(s.push(e).subrange(0, 3) =~= s.subrange(0, 3));
    } else {
        assert(first_three(s) == s);
    }
}

} // verus!
