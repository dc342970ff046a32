use vstd::prelude::*;

verus! {

/// Why a template could not be found or loaded.
#[derive(Debug, Clone)]
pub enum TemplateError {
    InvalidTemplatePath(String),
    TemplateNotFound(String),
}

pub open spec fn template_suffix() -> Seq<char> {
    seq!['.', 'l', 'i', 'q', 'u', 'i', 'd']
}

/// The position just after the last `/` of `s[..end]`, or zero.
pub open spec fn segment_start(s: Seq<char>, end: int) -> int
    decreases end,
{
    if end <= 0 {
        0
    } else if s[end - 1] == '/' {
        end
    } else {
        segment_start(s, end - 1)
    }
}

/// `s` with every trailing `.liquid` removed.
pub open spec fn trim_suffix(s: Seq<char>) -> Seq<char>
    decreases s.len(),
{
    if s.len() >= 7 && s.subrange(s.len() - 7, s.len() as int) == template_suffix() {
        trim_suffix(s.subrange(0, s.len() - 7))
    } else {
        s
    }
}

/// The name under which a template file is kept: the last segment of its
/// path, with every trailing `.liquid` removed.
pub open spec fn template_name_spec(path: Seq<char>) -> Seq<char> {
    trim_suffix(path.subrange(segment_start(path, path.len() as int), path.len() as int))
}

proof fn lemma_segment_start_bounds(s: Seq<char>, end: int)
    requires
        0 <= end <= s.len(),
    ensures
        0 <= segment_start(s, end) <= end,
    decreases end,
{
    if end > 0 && s[end - 1] != '/' {
        lemma_segment_start_bounds(s, end - 1);
    }
}

/// The name under which the template at `path` is kept.
pub fn template_name(path: &str) -> (r: String)
    ensures
        r@ == template_name_spec(path@),
{
    let n = path.unicode_len();
    let mut start: usize = n;
    while start > 0 && path.get_char(start - 1) != '/'
        invariant
            start <= n == path@.len(),
            segment_start(path@, start as int) == segment_start(path@, n as int),
        decreases start,
    {
        start = start - 1;
    }
    proof {
        lemma_segment_start_bounds(path@, n as int);
    }
    let ghost seg = path@.subrange(start as int, n as int);
    let mut end: usize = n;
    while end - start >= 7 && path.get_char(end - 7) == '.' && path.get_char(end - 6) == 'l'
        && path.get_char(end - 5) == 'i' && path.get_char(end - 4) == 'q' && path.get_char(
        end - 3,
    ) == 'u' && path.get_char(end - 2) == 'i' && path.get_char(end - 1) == 'd'
        invariant
            start <= end <= n == path@.len(),
            seg == path@.subrange(start as int, n as int),
            trim_suffix(path@.subrange(start as int, end as int)) == trim_suffix(seg),
        decreases end,
    {
        let ghost cur = path@.subrange(start as int, end as int);
        assert(cur.subrange(cur.len() - 7, cur.len() as int) =~= template_suffix());
        assert(cur.subrange(0, cur.len() - 7) =~= path@.subrange(start as int, end - 7));
        end = end - 7;
    }
    proof {
        let cur = path@.subrange(start as int, end as int);
        if cur.len() >= 7 {
            assert(cur.subrange(cur.len() - 7, cur.len() as int) != template_suffix()) by {
                let t = cur.subrange(cur.len() - 7, cur.len() as int);
                if t == template_suffix() {
                    assert(t[0] == path@[end - 7]);
                    assert(t[1] == path@[end - 6]);
                    assert(t[2] == path@[end - 5]);
                    assert(t[3] == path@[end - 4]);
                    assert(t[4] == path@[end - 3]);
                    assert(t[5] == path@[end - 2]);
                    assert(t[6] == path@[end - 1]);
                }
            }
        }
    }
    path.substring_char(start, end).to_owned()
}

} // verus!
