use std::ops::Range;
use vstd::prelude::*;

verus! {

/// The cached state of one row of the table.
#[derive(Debug, PartialEq, Eq)]
pub enum RowState<T> {
    /// The row has not been requested yet.
    Placeholder,
    /// A fetch that covers this row is in flight.
    Loading,
    /// The row has been loaded.
    Loaded(T),
    /// The fetch that covered this row failed with this message.
    Error(String),
}

/// `b` is a clone of `a`: the same variant, with a cloned payload.
pub open spec fn state_cloned<T: Clone>(a: RowState<T>, b: RowState<T>) -> bool {
    match a {
        RowState::Loaded(x) => b matches RowState::Loaded(y) && cloned(x, y),
        _ => b == a,
    }
}

impl<T: Clone> Clone for RowState<T> {
    fn clone(&self) -> (r: Self)
        ensures
            state_cloned(*self, r),
    {
        match self {
            RowState::Placeholder => RowState::Placeholder,
            RowState::Loading => RowState::Loading,
            RowState::Loaded(x) => RowState::Loaded(x.clone()),
            RowState::Error(e) => RowState::Error(e.clone()),
        }
    }
}

impl<T> RowState<T> {
    pub open spec fn is_placeholder(self) -> bool {
        self is Placeholder
    }

    /// A short description of the state: the variant's name, and the message of an error.
    pub fn describe(&self) -> (r: String)
        ensures
            r@ == describe_state(*self),
    {
        match self {
            RowState::Placeholder => String::from_str("Placeholder"),
            RowState::Loading => String::from_str("Loading"),
            RowState::Loaded(_) => String::from_str("Loaded"),
            RowState::Error(e) => {
                let s = String::from_str("Error(");
                let s = s.concat(e.as_str());
                s.concat(")")
            },
        }
    }
}

pub open spec fn describe_state<T>(s: RowState<T>) -> Seq<char> {
    match s {
        RowState::Placeholder => "Placeholder"@,
        RowState::Loading => "Loading"@,
        RowState::Loaded(_) => "Loaded"@,
        RowState::Error(e) => "Error("@ + e@ + ")"@,
    }
}

/// The payloads of the loaded rows of `s`, in order.
pub open spec fn loaded_seq<T>(s: Seq<RowState<T>>) -> Seq<T>
    decreases s.len(),
{
    if s.len() == 0 {
        Seq::empty()
    } else {
        let rest = loaded_seq(s.drop_last());
        match s.last() {
            RowState::Loaded(v) => rest.push(v),
            _ => rest,
        }
    }
}

/// `n` placeholders.
pub open spec fn placeholders<T>(n: nat) -> Seq<RowState<T>> {
    Seq::new(n, |i: int| RowState::Placeholder)
}

/// The cache after a resize to `len`: truncated, or grown with placeholders.
pub open spec fn resized<T>(s: Seq<RowState<T>>, len: nat) -> Seq<RowState<T>> {
    if len <= s.len() {
        s.take(len as int)
    } else {
        s + placeholders((len - s.len()) as nat)
    }
}

/// The cache grown, if needed, so that it is at least `len` long.
pub open spec fn grown<T>(s: Seq<RowState<T>>, len: nat) -> Seq<RowState<T>> {
    if len <= s.len() {
        s
    } else {
        resized(s, len)
    }
}

/// The cache after the rows of `r` are marked as loading.
pub open spec fn marked_loading<T>(s: Seq<RowState<T>>, r: Range<usize>) -> Seq<RowState<T>> {
    let g = grown(s, r.end as nat);
    Seq::new(g.len(), |i: int| if r.start <= i < r.end { RowState::Loading } else { g[i] })
}

/// How many of `rows` are written into the range `r`: the shorter of the two.
pub open spec fn written_count<T>(rows: Seq<T>, r: Range<usize>) -> int {
    if rows.len() < r.end - r.start {
        rows.len() as int
    } else {
        r.end - r.start
    }
}

/// The cache after a successful load of `rows`, which cover the range `r`.
pub open spec fn written_ok<T>(s: Seq<RowState<T>>, rows: Seq<T>, r: Range<usize>) -> Seq<
    RowState<T>,
> {
    let g = grown(s, r.end as nat);
    Seq::new(
        g.len(),
        |i: int|
            if r.start <= i < r.start + written_count(rows, r) {
                RowState::Loaded(rows[i - r.start])
            } else {
                g[i]
            },
    )
}

/// The cache after a failed load of the range `r`, which may reach past its end.
pub open spec fn written_err<T>(s: Seq<RowState<T>>, msg: String, r: Range<usize>) -> Seq<
    RowState<T>,
> {
    Seq::new(s.len(), |i: int| if r.start <= i < r.end { RowState::Error(msg) } else { s[i] })
}

/// The cache after the outcome of a load of `requested` is written.
pub open spec fn written<T>(
    s: Seq<RowState<T>>,
    result: Result<(Vec<T>, Range<usize>), String>,
    requested: Range<usize>,
) -> Seq<RowState<T>> {
    match result {
        Ok((rows, r)) => written_ok(s, rows@, r),
        Err(msg) => written_err(s, msg, requested),
    }
}

/// No row of `s` in `[start, end)` is a placeholder.
pub open spec fn none_missing<T>(s: Seq<RowState<T>>, start: int, end: int) -> bool {
    forall|i: int| start <= i < end ==> !(#[trigger] s[i]).is_placeholder()
}

/// What `missing_range` returns: the range from the first to the last placeholder in
/// `[start, end)`, or `None` when there is none.
pub open spec fn is_missing_range<T>(
    s: Seq<RowState<T>>,
    start: int,
    end: int,
    r: Option<Range<usize>>,
) -> bool {
    match r {
        None => none_missing(s, start, end),
        Some(m) => {
            &&& start <= m.start < m.end <= end
            &&& s[m.start as int].is_placeholder()
            &&& s[m.end - 1].is_placeholder()
            &&& none_missing(s, start, m.start as int)
            &&& none_missing(s, m.end as int, end)
        },
    }
}

/// A cache of row states, one per row index, that tracks which rows are loaded, which are
/// loading and which are still missing.
pub struct LoadedRows<T> {
    rows: Vec<RowState<T>>,
}

impl<T> View for LoadedRows<T> {
    type V = Seq<RowState<T>>;

    closed spec fn view(&self) -> Seq<RowState<T>> {
        self.rows@
    }
}

impl<T> LoadedRows<T> {
    /// An empty cache.
    pub fn new() -> (r: Self)
        ensures
            r@ == Seq::<RowState<T>>::empty(),
    {
        LoadedRows { rows: Vec::new() }
    }

    /// The number of rows in the cache.
    pub fn len(&self) -> (r: usize)
        ensures
            r == self@.len(),
    {
        self.rows.len()
    }

    /// The state of the row at `index`.
    pub fn get(&self, index: usize) -> (r: &RowState<T>)
        requires
            index < self@.len(),
        ensures
            *r == self@[index as int],
    {
        &self.rows[index]
    }

    /// Truncates the cache, or grows it with placeholders, to `len` rows.
    pub fn resize(&mut self, len: usize)
        ensures
            final(self)@ == resized(old(self)@, len as nat),
    {
        if len <= self.rows.len() {
            self.rows.truncate(len);
        } else {
            let ghost start = self.rows@;
            while self.rows.len() < len
                invariant
                    start.len() <= self.rows@.len() <= len,
                    self.rows@ == start + placeholders::<T>((self.rows@.len() - start.len()) as nat),
                decreases len - self.rows@.len(),
            {
                self.rows.push(RowState::Placeholder);
                assert(self.rows@ =~= start + placeholders::<T>(
                    (self.rows@.len() - start.len()) as nat,
                ));
            }
        }
    }

    /// Grows the cache with placeholders to at least `len` rows.
    fn grow(&mut self, len: usize)
        ensures
            final(self)@ == grown(old(self)@, len as nat),
    {
        if len > self.rows.len() {
            self.resize(len);
        }
    }

    /// Marks the rows of `range` as loading, growing the cache first if it ends past the
    /// last row.
    pub fn write_loading(&mut self, range: Range<usize>)
        ensures
            final(self)@ == marked_loading(old(self)@, range),
    {
        self.grow(range.end);
        let ghost g = self.rows@;
        let mut i = range.start;
        while i < range.end
            invariant
                g == grown(old(self)@, range.end as nat),
                range.end <= g.len(),
                self.rows@.len() == g.len(),
                range.start <= i,
                i <= range.end || i == range.start,
                forall|j: int|
                    0 <= j < g.len() ==> #[trigger] self.rows@[j] == if range.start <= j < i {
                        RowState::Loading
                    } else {
                        g[j]
                    },
            decreases range.end - i,
        {
            self.rows[i] = RowState::Loading;
            i = i + 1;
        }
        assert(self.rows@ =~= marked_loading(old(self)@, range));
    }

    /// Writes the outcome of a load of `missing_range` into the cache.
    ///
    /// On success the rows are written, in order, into the range that they cover, which may
    /// differ from the one that was requested; the cache grows if that range ends past its
    /// last row. On failure every row of `missing_range` that the cache holds becomes an
    /// error with the message.
    pub fn write_loaded(
        &mut self,
        loading_result: Result<(Vec<T>, Range<usize>), String>,
        missing_range: Range<usize>,
    )
        requires
            loading_result matches Ok((_, r)) ==> r.start <= r.end,
        ensures
            final(self)@ == written(old(self)@, loading_result, missing_range),
    {
        match loading_result {
            Ok((rows, range)) => {
                self.grow(range.end);
                let ghost g = self.rows@;
                let ghost loaded = rows@;
                let span = range.end - range.start;
                let mut k: usize = 0;
                for row in it: rows.into_iter()
                    invariant
                        g == grown(old(self)@, range.end as nat),
                        range.start <= range.end <= g.len(),
                        span == range.end - range.start,
                        it.seq() == loaded,
                        k == if it.index() < span { it.index() } else { span as int },
                        k <= loaded.len(),
                        self.rows@.len() == g.len(),
                        forall|j: int|
                            0 <= j < g.len() ==> #[trigger] self.rows@[j] == if range.start <= j
                                < range.start + k && j < range.end {
                                RowState::Loaded(loaded[j - range.start])
                            } else {
                                g[j]
                            },
                {
                    if k < span {
                        self.rows[range.start + k] = RowState::Loaded(row);
                        k = k + 1;
                    }
                }
                assert(self.rows@ =~= written_ok(old(self)@, loaded, range));
            },
            Err(error) => {
                let end = if missing_range.end < self.rows.len() {
                    missing_range.end
                } else {
                    self.rows.len()
                };
                if missing_range.start >= end {
                    assert(self.rows@ =~= written_err(old(self)@, error, missing_range));
                    return ;
                }
                let mut i = missing_range.start;
                while i < end
                    invariant
                        self.rows@.len() == old(self)@.len(),
                        end <= self.rows@.len(),
                        end <= missing_range.end,
                        missing_range.start <= i <= end,
                        forall|j: int|
                            0 <= j < old(self)@.len() ==> #[trigger] self.rows@[j] == if missing_range.start
                                <= j < i {
                                RowState::Error(error)
                            } else {
                                old(self)@[j]
                            },
                    decreases end - i,
                {
                    self.rows[i] = RowState::Error(error.clone());
                    i = i + 1;
                }
                assert(self.rows@ =~= written_err(old(self)@, error, missing_range));
            },
        }
    }

    /// The smallest range within `range` that holds every placeholder of it, from the first
    /// placeholder to the last; `None` when `range` holds none. Rows that are loading, loaded
    /// or failed are not fetched again.
    pub fn missing_range(&self, range: Range<usize>) -> (r: Option<Range<usize>>)
        requires
            range.start <= range.end <= self@.len(),
        ensures
            is_missing_range(self@, range.start as int, range.end as int, r),
    {
        let mut start = range.start;
        while start < range.end && !matches!(self.rows[start], RowState::Placeholder)
            invariant
                range.start <= start <= range.end <= self@.len(),
                none_missing(self@, range.start as int, start as int),
            decreases range.end - start,
        {
            start = start + 1;
        }
        if start == range.end {
            return None;
        }
        let mut end = range.end;
        while !matches!(self.rows[end - 1], RowState::Placeholder)
            invariant
                start < end <= range.end <= self@.len(),
                self@[start as int].is_placeholder(),
                none_missing(self@, end as int, range.end as int),
            decreases end,
        {
            end = end - 1;
        }
        Some(start..end)
    }

    /// Copies of the loaded rows, in index order.
    pub fn loaded_values(&self) -> (r: Vec<T>)
        where
            T: Clone,
        ensures
            r@.len() == loaded_seq(self@).len(),
            forall|k: int| 0 <= k < r@.len() ==> cloned(loaded_seq(self@)[k], #[trigger] r@[k]),
    {
        let mut out: Vec<T> = Vec::new();
        let mut i: usize = 0;
        while i < self.rows.len()
            invariant
                0 <= i <= self@.len(),
                out@.len() == loaded_seq(self@.take(i as int)).len(),
                forall|k: int|
                    0 <= k < out@.len() ==> cloned(
                        loaded_seq(self@.take(i as int))[k],
                        #[trigger] out@[k],
                    ),
            decreases self@.len() - i,
        {
            assert(self@.take(i + 1).drop_last() =~= self@.take(i as int));
            if let RowState::Loaded(v) = &self.rows[i] {
                out.push(v.clone());
            }
            i = i + 1;
        }
        assert(self@.take(self@.len() as int) =~= self@);
        out
    }

    /// Resets every row to a placeholder; the length stays.
    pub fn clear(&mut self)
        ensures
            final(self)@ == placeholders::<T>(old(self)@.len()),
    {
        let mut i: usize = 0;
        while i < self.rows.len()
            invariant
                self.rows@.len() == old(self)@.len(),
                0 <= i <= self.rows@.len(),
                forall|j: int|
                    0 <= j < self.rows@.len() ==> #[trigger] self.rows@[j] == if j < i {
                        RowState::Placeholder
                    } else {
                        old(self)@[j]
                    },
            decreases self.rows@.len() - i,
        {
            self.rows[i] = RowState::Placeholder;
            i = i + 1;
        }
        assert(self.rows@ =~= placeholders::<T>(old(self)@.len()));
    }
}

/// Writing the outcome of one load twice leaves the cache as writing it once does.
pub proof fn lemma_write_idempotent<T>(
    s: Seq<RowState<T>>,
    result: Result<(Vec<T>, Range<usize>), String>,
    requested: Range<usize>,
)
    requires
        result matches Ok((_, r)) ==> r.start <= r.end,
    ensures
        written(written(s, result, requested), result, requested) == written(s, result, requested),
{
    let once = written(s, result, requested);
    let twice = written(once, result, requested);
    assert(twice =~= once);
}

/// Growing the cache keeps every row it held and adds placeholders; shrinking it keeps the
/// rows that remain.
pub proof fn lemma_resize_keeps_rows<T>(s: Seq<RowState<T>>, len: nat)
    ensures
        resized(s, len).len() == len,
        forall|i: int| 0 <= i < len && i < s.len() ==> #[trigger] resized(s, len)[i] == s[i],
        forall|i: int| s.len() <= i < len ==> (#[trigger] resized(s, len)[i]).is_placeholder(),
{
}

} // verus!
