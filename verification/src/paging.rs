//! Pages of results.
use vstd::prelude::*;

verus! {

/// Which of many results are asked for.
#[derive(Debug, Clone, Copy, PartialEq, Eq, Structural)]
pub struct PageRequest {
    pub limit: usize,
    pub offset: usize,
}

impl Default for PageRequest {
    fn default() -> (page: PageRequest)
        ensures
            page == (PageRequest { limit: 100, offset: 0 }),
    {
        PageRequest { limit: 100, offset: 0 }
    }
}

/// The results on a page: those that follow the first `offset`, at most `limit` of them.
pub open spec fn page_of<T>(results: Seq<T>, page: PageRequest) -> Seq<T> {
    let rest = if page.offset <= results.len() {
        results.skip(page.offset as int)
    } else {
        Seq::empty()
    };
    if page.limit <= rest.len() {
        rest.take(page.limit as int)
    } else {
        rest
    }
}

/// A page and the one that follows it are together the page that is as long as both.
pub proof fn pages_follow_each_other<T>(results: Seq<T>, first: PageRequest, second: PageRequest)
    requires
        second.offset == first.offset + first.limit,
        first.limit + second.limit <= usize::MAX,
    ensures
        page_of(results, first) + page_of(results, second) == page_of(
            results,
            PageRequest {
                limit: (first.limit + second.limit) as usize,
                offset: first.offset,
            },
        ),
{
    let both = PageRequest {
        limit: (first.limit + second.limit) as usize,
        offset: first.offset,
    };
    assert(page_of(results, first) + page_of(results, second) =~= page_of(results, both));
}

} // verus!
