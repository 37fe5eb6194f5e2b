//! Cursor pagination over a result set that is held in memory whole.
//!
//! A request names a window of the sequence by two optional cursors and
//! trims it from one side by a count. What comes back is that slice, each
//! element beside the cursor of its position, and whether the window went
//! on past either end of the slice.

use vstd::prelude::*;
use crate::cursor::{cursor_ordinal, cursor_text, decode_cursor, encode_cursor};

verus! {

/// The largest page that a request may ask for.
pub const MAX_PAGE_SIZE: u32 = 100;

/// Why a page request was turned down.
#[derive(Debug, Clone, Copy, PartialEq, Eq, Structural)]
pub enum PageError {
    /// `first` or `last` lies outside the accepted range.
    InvalidArgument,
    /// `after` or `before` is no cursor into the sequence.
    InvalidCursor,
}

/// The window and the trimming that a caller asks for.
#[derive(Debug, Clone)]
pub struct PageRequest {
    /// The window starts behind the element with this cursor.
    pub after: Option<String>,
    /// The window ends in front of the element with this cursor.
    pub before: Option<String>,
    /// Keep this many elements from the window's start.
    pub first: Option<u32>,
    /// Keep this many elements from the window's end; unused beside `first`.
    pub last: Option<u32>,
}

/// Whether the slice stops short of the window on either side.
#[derive(Debug, Clone, Copy, PartialEq, Eq, Structural)]
pub struct PageInfo {
    pub has_next_page: bool,
    pub has_previous_page: bool,
}

/// One element of a page beside the cursor of its position.
#[derive(Debug)]
pub struct Edge<T> {
    pub cursor: String,
    pub node: T,
}

/// A slice of the sequence, in order.
#[derive(Debug)]
pub struct Page<T> {
    pub edges: Vec<Edge<T>>,
    pub page_info: PageInfo,
}

/// The slice `[start, end)` that a request selects, with its two flags.
pub struct Window {
    pub start: nat,
    pub end: nat,
    pub has_next_page: bool,
    pub has_previous_page: bool,
}

/// Whether a count, if given, lies in `[1, max]`.
pub open spec fn count_in_range(count: Option<u32>, max: u32) -> bool {
    count matches Some(n) ==> 1 <= n && n <= max
}

/// Whether a cursor, if given, decodes to a position in `[0, len]`.
pub open spec fn cursor_in_range(cursor: Option<String>, len: nat) -> bool {
    cursor matches Some(t) ==> (cursor_ordinal(t@) matches Some(i) && i <= len)
}

/// Where the window starts: behind `after`, at most at `len`.
pub open spec fn window_start(after: Option<String>, len: nat) -> nat {
    match after {
        Some(t) => {
            let i = cursor_ordinal(t@).unwrap();
            if i < len {
                i + 1 as nat
            } else {
                len
            }
        },
        None => 0,
    }
}

/// Where the window ends: at `before`, and never in front of its start `lo`.
pub open spec fn window_end(before: Option<String>, len: nat, lo: nat) -> nat {
    match before {
        Some(t) => {
            let j = cursor_ordinal(t@).unwrap();
            if j < lo {
                lo
            } else {
                j
            }
        },
        None => len,
    }
}

/// The window `[lo, hi)` trimmed to its first `first` elements, or else to
/// its last `last` elements, or left whole.
pub open spec fn trim(lo: nat, hi: nat, first: Option<u32>, last: Option<u32>) -> Window {
    match (first, last) {
        (Some(n), _) => {
            let end = if lo + n < hi {
                lo + n as nat
            } else {
                hi
            };
            Window { start: lo, end, has_next_page: end < hi, has_previous_page: false }
        },
        (None, Some(n)) => {
            let start = if hi - n > lo {
                (hi - n) as nat
            } else {
                lo
            };
            Window { start, end: hi, has_next_page: false, has_previous_page: start > lo }
        },
        (None, None) => Window {
            start: lo,
            end: hi,
            has_next_page: false,
            has_previous_page: false,
        },
    }
}

/// What a request selects of a sequence of `len` elements: counts are
/// checked first, then cursors, then the window is cut and trimmed.
pub open spec fn page_window(len: nat, request: PageRequest, max_page_size: u32) -> Result<
    Window,
    PageError,
> {
    if !count_in_range(request.first, max_page_size) || !count_in_range(
        request.last,
        max_page_size,
    ) {
        Err(PageError::InvalidArgument)
    } else if !cursor_in_range(request.after, len) || !cursor_in_range(request.before, len) {
        Err(PageError::InvalidCursor)
    } else {
        let lo = window_start(request.after, len);
        let hi = window_end(request.before, len, lo);
        Ok(trim(lo, hi, request.first, request.last))
    }
}

impl PageRequest {
    /// Whether both counts, where given, lie in `[1, MAX_PAGE_SIZE]`, and
    /// both cursors, where given, decode to a position.
    pub open spec fn well_formed(self) -> bool {
        &&& count_in_range(self.first, MAX_PAGE_SIZE)
        &&& count_in_range(self.last, MAX_PAGE_SIZE)
        &&& cursor_decodes(self.after)
        &&& cursor_decodes(self.before)
    }

    /// Builds a request from the arguments of a query, where counts arrive
    /// as signed numbers. Nothing but the arguments is looked at, so a
    /// request can be turned down before anything is read: for a count
    /// outside `[1, MAX_PAGE_SIZE]` first, then for a cursor that decodes to
    /// no position. Whether a cursor points into the sequence is seen when
    /// the page is cut.
    pub fn new(
        after: Option<String>,
        before: Option<String>,
        first: Option<i32>,
        last: Option<i32>,
    ) -> (r: Result<PageRequest, PageError>)
        ensures
            match r {
                Ok(request) => {
                    &&& request.well_formed()
                    &&& request.after == after
                    &&& request.before == before
                    &&& signed_count(first) == Some(request.first)
                    &&& signed_count(last) == Some(request.last)
                },
                Err(e) => e == (if signed_count(first) is None || signed_count(last) is None {
                    PageError::InvalidArgument
                } else {
                    PageError::InvalidCursor
                }),
            },
            r is Ok <==> signed_count(first) is Some && signed_count(last) is Some
                && cursor_decodes(after) && cursor_decodes(before),
    {
        let first = match count_of(first) {
            Some(c) => c,
            None => {
                return Err(PageError::InvalidArgument);
            },
        };
        let last = match count_of(last) {
            Some(c) => c,
            None => {
                return Err(PageError::InvalidArgument);
            },
        };
        if !decodes(&after) || !decodes(&before) {
            return Err(PageError::InvalidCursor);
        }
        Ok(PageRequest { after, before, first, last })
    }
}

/// Whether a cursor, if given, decodes to a position that the machine can
/// hold.
pub open spec fn cursor_decodes(cursor: Option<String>) -> bool {
    cursor matches Some(t) ==> (cursor_ordinal(t@) matches Some(i) && i <= usize::MAX)
}

fn decodes(cursor: &Option<String>) -> (r: bool)
    ensures
        r == cursor_decodes(*cursor),
{
    match cursor {
        Some(t) => decode_cursor(t.as_str()).is_some(),
        None => true,
    }
}

/// A signed count as an accepted count: absent stays absent, a number in
/// `[1, MAX_PAGE_SIZE]` is kept, any other number has none.
pub open spec fn signed_count(count: Option<i32>) -> Option<Option<u32>> {
    match count {
        None => Some(None),
        Some(n) => if 1 <= n && n <= MAX_PAGE_SIZE {
            Some(Some(n as u32))
        } else {
            None
        },
    }
}

fn count_of(count: Option<i32>) -> (r: Option<Option<u32>>)
    ensures
        r == signed_count(count),
{
    match count {
        None => Some(None),
        Some(n) => if n >= 1 && n as u32 <= MAX_PAGE_SIZE {
            Some(Some(n as u32))
        } else {
            None
        },
    }
}

impl<T> Page<T> {
    /// Whether this page is the slice `w` of `items`: the same elements in
    /// the same order, each with the cursor of its position in `items`.
    pub open spec fn is_slice_of(self, items: Seq<T>, w: Window) -> bool {
        &&& w.start <= w.end <= items.len()
        &&& self.edges@.len() == w.end - w.start
        &&& forall|k: int|
            0 <= k < self.edges@.len() ==> (#[trigger] self.edges@[k]).node == items[w.start + k]
        &&& forall|k: int|
            0 <= k < self.edges@.len() ==> (#[trigger] self.edges@[k]).cursor@ == cursor_text(
                (w.start + k) as nat,
            )
        &&& self.page_info.has_next_page == w.has_next_page
        &&& self.page_info.has_previous_page == w.has_previous_page
    }

    /// The elements of the page, in order.
    pub open spec fn nodes(self) -> Seq<T> {
        Seq::new(self.edges@.len(), |k: int| self.edges@[k].node)
    }
}

/// Reads a cursor of the request as a position in `[0, len]`.
fn bound_of(cursor: &Option<String>, len: usize) -> (r: Result<Option<usize>, PageError>)
    ensures
        match r {
            Ok(Some(i)) => cursor matches Some(t) && cursor_ordinal(t@) == Some(i as nat) && i
                <= len,
            Ok(None) => cursor is None,
            Err(e) => e == PageError::InvalidCursor && !cursor_in_range(*cursor, len as nat),
        },
        r is Ok ==> cursor_in_range(*cursor, len as nat),
{
    match cursor {
        None => Ok(None),
        Some(t) => match decode_cursor(t.as_str()) {
            Some(i) => if i <= len {
                Ok(Some(i))
            } else {
                Err(PageError::InvalidCursor)
            },
            None => Err(PageError::InvalidCursor),
        },
    }
}

/// Whether a count, if given, lies in `[1, max]`.
fn count_ok(count: Option<u32>, max: u32) -> (r: bool)
    ensures
        r == count_in_range(count, max),
{
    match count {
        Some(n) => 1 <= n && n <= max,
        None => true,
    }
}

/// Cuts the page that `request` selects out of `items`.
///
/// Counts outside `[1, max_page_size]` are turned down first, then cursors
/// that do not decode to a position in `[0, len]`. Otherwise the page is the
/// slice that `page_window` gives, and an empty sequence gives an empty page
/// with both flags down.
pub fn paginate<T>(items: Vec<T>, request: &PageRequest, max_page_size: u32) -> (r: Result<
    Page<T>,
    PageError,
>)
    ensures
        match r {
            Ok(page) => page_window(items@.len(), *request, max_page_size) matches Ok(w)
                && page.is_slice_of(items@, w),
            Err(e) => page_window(items@.len(), *request, max_page_size) == Err::<
                Window,
                PageError,
            >(e),
        },
{
    let len = items.len();
    if !count_ok(request.first, max_page_size) || !count_ok(request.last, max_page_size) {
        return Err(PageError::InvalidArgument);
    }
    let after = match bound_of(&request.after, len) {
        Ok(b) => b,
        Err(e) => {
            return Err(e);
        },
    };
    let before = match bound_of(&request.before, len) {
        Ok(b) => b,
        Err(e) => {
            return Err(e);
        },
    };
    let lo: usize = match after {
        Some(i) => if i < len {
            i + 1
        } else {
            len
        },
        None => 0,
    };
    let hi: usize = match before {
        Some(j) => if j < lo {
            lo
        } else {
            j
        },
        None => len,
    };
    let mut start = lo;
    let mut end = hi;
    match request.first {
        Some(n) => {
            let n = n as usize;
            if n < hi - lo {
                end = lo + n;
            }
        },
        None => match request.last {
            Some(n) => {
                let n = n as usize;
                if n < hi - lo {
                    start = hi - n;
                }
            },
            None => {},
        },
    }
    let page_info = PageInfo { has_next_page: end < hi, has_previous_page: start > lo };
    let ghost w = page_window(items@.len(), *request, max_page_size).unwrap();
    assert(w.start == start && w.end == end);
    let edges = slice_edges(items, start, end);
    Ok(Page { edges, page_info })
}

/// Moves the elements `[start, end)` out of `items`, each beside the cursor
/// of its position.
fn slice_edges<T>(items: Vec<T>, start: usize, end: usize) -> (edges: Vec<Edge<T>>)
    requires
        start <= end <= items@.len(),
    ensures
        edges@.len() == end - start,
        forall|k: int| 0 <= k < edges@.len() ==> (#[trigger] edges@[k]).node == items@[start + k],
        forall|k: int|
            0 <= k < edges@.len() ==> (#[trigger] edges@[k]).cursor@ == cursor_text(
                (start + k) as nat,
            ),
{
    let mut head = items;
    head.truncate(end);
    let rest = head.split_off(start);
    assert(rest@ =~= items@.subrange(start as int, end as int));
    let mut edges: Vec<Edge<T>> = Vec::new();
    for node in iter: rest
        invariant
            start <= end <= items@.len(),
            iter.seq() == items@.subrange(start as int, end as int),
            edges@.len() == iter.index(),
            forall|k: int|
                0 <= k < edges@.len() ==> (#[trigger] edges@[k]).node == items@[start + k],
            forall|k: int|
                0 <= k < edges@.len() ==> (#[trigger] edges@[k]).cursor@ == cursor_text(
                    (start + k) as nat,
                ),
    {
        let cursor = encode_cursor(start + edges.len());
        edges.push(Edge { cursor, node });
    }
    edges
}

/// A page holds a run of neighbours of the sequence, in the sequence's order.
pub proof fn lemma_page_is_contiguous<T>(page: Page<T>, items: Seq<T>, w: Window)
    requires
        page.is_slice_of(items, w),
    ensures
        page.nodes() == items.subrange(w.start as int, w.end as int),
{
    assert(page.nodes() =~= items.subrange(w.start as int, w.end as int));
}

/// Asking again behind the last cursor of a page that is not empty gives a
/// window that starts at the element right behind that page: nothing is
/// skipped and nothing comes twice.
pub proof fn lemma_next_page_follows(
    len: nat,
    request: PageRequest,
    next: PageRequest,
    max_page_size: u32,
)
    requires
        page_window(len, request, max_page_size) is Ok,
        page_window(len, request, max_page_size).unwrap().start < page_window(
            len,
            request,
            max_page_size,
        ).unwrap().end,
        next.after is Some,
        next.after.unwrap()@ == cursor_text(
            (page_window(len, request, max_page_size).unwrap().end - 1) as nat,
        ),
        next.before is None,
        count_in_range(next.first, max_page_size),
        count_in_range(next.last, max_page_size),
    ensures
        page_window(len, next, max_page_size) is Ok,
        ({
            let w = page_window(len, request, max_page_size).unwrap();
            let w2 = page_window(len, next, max_page_size).unwrap();
            &&& w.end <= w2.start <= w2.end <= len
            &&& (next.first is Some || next.last is None) ==> w2.start == w.end
        }),
{
    let w = page_window(len, request, max_page_size).unwrap();
    lemma_window_in_bounds(len, request, max_page_size);
    crate::cursor::lemma_cursor_text_canonical((w.end - 1) as nat);
}

/// Every window lies inside the sequence.
pub proof fn lemma_window_in_bounds(len: nat, request: PageRequest, max_page_size: u32)
    requires
        page_window(len, request, max_page_size) is Ok,
    ensures
        page_window(len, request, max_page_size) matches Ok(w) && w.start <= w.end <= len,
{
}

/// With the largest page at one hundred, a `first` of zero or of one
/// hundred and one is turned down, and a request that gives only a `first`
/// between one and one hundred gets that many elements from the front, or
/// all there are.
pub proof fn lemma_first_bounds(len: nat, request: PageRequest)
    ensures
        (request.first == Some(0u32) || request.first == Some(101u32)) ==> page_window(
            len,
            request,
            MAX_PAGE_SIZE,
        ) == Err::<Window, PageError>(PageError::InvalidArgument),
        (request.first matches Some(n) && 1 <= n <= 100 && request.last is None
            && request.after is None && request.before is None) ==> (page_window(
            len,
            request,
            MAX_PAGE_SIZE,
        ) matches Ok(w) && w.start == 0 && w.end == (if request.first.unwrap() < len {
            request.first.unwrap() as nat
        } else {
            len
        }) && w.has_next_page == (request.first.unwrap() < len) && !w.has_previous_page),
{
}

/// An empty sequence gives an empty window with both flags down, whatever
/// the request, as long as it is accepted.
pub proof fn lemma_empty_source(request: PageRequest, max_page_size: u32)
    requires
        page_window(0, request, max_page_size) is Ok,
    ensures
        page_window(0, request, max_page_size) matches Ok(w) && w.start == 0 && w.end == 0
            && !w.has_next_page && !w.has_previous_page,
{
}

/// A request that was built from the arguments of a query is never turned
/// down for its counts when the page is cut, and for a cursor only if the
/// cursor points behind the end of the sequence.
pub proof fn lemma_accepted_request(len: nat, request: PageRequest)
    requires
        request.well_formed(),
    ensures
        page_window(len, request, MAX_PAGE_SIZE) is Err ==> {
            &&& page_window(len, request, MAX_PAGE_SIZE) == Err::<Window, PageError>(
                PageError::InvalidCursor,
            )
            &&& (request.after matches Some(t) && cursor_ordinal(t@).unwrap() > len) || (
            request.before matches Some(t) && cursor_ordinal(t@).unwrap() > len)
        },
{
}

} // verus!
