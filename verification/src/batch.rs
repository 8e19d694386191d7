//! The application manager: the table of embedded images, the index of the
//! next application, and the loading of one image after another.

use vstd::prelude::*;
use vstd::string::*;
use crate::config::{APP_SIZE_LIMIT, APP_TABLE_SLOTS, MAX_APP_NUM};
use crate::image::ImageRegion;
use crate::stack::ExecutionStacks;
use crate::text::{decimal, decimal_text, hex, hex_text};
use crate::window::{padded_image, ExecutionWindow};

verus! {

/// Why a table of applications was refused.
#[derive(Clone, Copy, Debug, PartialEq, Eq, Structural)]
pub enum TableError {
    /// The table ends before the count or before the last boundary.
    Truncated,
    /// The table announces more than `MAX_APP_NUM` applications.
    TooManyApps,
    /// A boundary lies below the one before it.
    Unordered,
}

/// Why no application was loaded.
#[derive(Clone, Copy, Debug, PartialEq, Eq, Structural)]
pub enum LoadError {
    /// The index is past the last application: the batch is finished.
    AllAppsCompleted,
    /// The image is longer than the execution window.
    ImageTooLarge,
    /// The image does not lie inside the region of embedded images.
    ImageOutOfRange,
}

impl LoadError {
    /// The text that the console is given for this error.
    pub open spec fn message_text(&self) -> Seq<char> {
        match self {
            LoadError::AllAppsCompleted => "All applications completed!"@,
            LoadError::ImageTooLarge => "Application image exceeds the size limit!"@,
            LoadError::ImageOutOfRange => "Application image lies outside the embedded data!"@,
        }
    }

    /// The text that the console is given for this error.
    pub fn message(&self) -> (text: String)
        ensures
            text@ == self.message_text(),
    {
        match self {
            LoadError::AllAppsCompleted => String::from_str("All applications completed!"),
            LoadError::ImageTooLarge => String::from_str(
                "Application image exceeds the size limit!",
            ),
            LoadError::ImageOutOfRange => String::from_str(
                "Application image lies outside the embedded data!",
            ),
        }
    }
}

/// Whether boundary `i + 1` of a raw table lies below boundary `i`.
pub open spec fn descends_at(words: Seq<usize>, i: int) -> bool {
    words[1 + i] > words[2 + i]
}

/// The reason for which a raw table is refused, if it is.
///
/// A raw table is the count of applications followed by one boundary more
/// than there are applications. Words behind the last boundary are ignored.
pub open spec fn table_error(words: Seq<usize>) -> Option<TableError> {
    if words.len() == 0 {
        Some(TableError::Truncated)
    } else if words[0] > MAX_APP_NUM {
        Some(TableError::TooManyApps)
    } else if words.len() < words[0] + 2 {
        Some(TableError::Truncated)
    } else if exists|i: int| 0 <= i < words[0] && #[trigger] descends_at(words, i) {
        Some(TableError::Unordered)
    } else {
        None
    }
}

/// The line that announces the loading of application `app_id`.
pub open spec fn load_notice_text(app_id: nat) -> Seq<char> {
    "[kernel] Loading app_"@ + decimal(app_id)
}

/// The line that announces the loading of application `app_id`.
pub fn load_notice(app_id: usize) -> (text: String)
    ensures
        text@ == load_notice_text(app_id as nat),
{
    let mut text = String::from_str("[kernel] Loading app_");
    text.append(decimal_text(app_id).as_str());
    text
}

/// The table of applications and the index of the one to run next.
///
/// Application `i` occupies the addresses from boundary `i` up to boundary
/// `i + 1` of the region of embedded images.
#[derive(Debug)]
pub struct AppManagerInner {
    num_app: usize,
    current_app: usize,
    app_start: [usize; APP_TABLE_SLOTS],
}

impl AppManagerInner {
    /// Number of applications in the table.
    pub closed spec fn count(&self) -> nat {
        self.num_app as nat
    }

    /// Index of the application to run next; equal to `count()` once all have run.
    pub closed spec fn current(&self) -> nat {
        self.current_app as nat
    }

    /// Boundary `i` of the table, for `0 <= i <= count()`.
    pub closed spec fn boundary(&self, i: int) -> int {
        self.app_start@[i] as int
    }

    /// The table holds at most `MAX_APP_NUM` applications, its boundaries
    /// never descend, and the index is at most the count.
    pub open spec fn wf(&self) -> bool {
        &&& self.count() <= MAX_APP_NUM
        &&& self.current() <= self.count()
        &&& forall|i: int, j: int|
            0 <= i <= j <= self.count() ==> 0 <= #[trigger] self.boundary(i)
                <= #[trigger] self.boundary(j)
    }

    /// Whether two managers hold the same table.
    pub open spec fn same_table(&self, other: &Self) -> bool {
        &&& self.count() == other.count()
        &&& forall|i: int| 0 <= i <= self.count() ==> self.boundary(i) == other.boundary(i)
    }

    /// Length in bytes of the image of application `id`.
    pub open spec fn image_len(&self, id: int) -> int
        recommends
            0 <= id < self.count(),
    {
        self.boundary(id + 1) - self.boundary(id)
    }

    /// What loading application `id` from `image` does: the new content of the
    /// execution window, or the reason for which the window is left alone.
    pub open spec fn load_result(&self, id: int, image: &ImageRegion) -> Result<
        Seq<u8>,
        LoadError,
    > {
        if id < 0 || id >= self.count() {
            Err(LoadError::AllAppsCompleted)
        } else if self.image_len(id) > APP_SIZE_LIMIT {
            Err(LoadError::ImageTooLarge)
        } else if !image.covers(self.boundary(id), self.boundary(id + 1)) {
            Err(LoadError::ImageOutOfRange)
        } else {
            Ok(padded_image(image.range(self.boundary(id), self.boundary(id + 1))))
        }
    }

    /// The index after one run: one further if the current application can be
    /// loaded from `image`, unchanged if it cannot.
    pub open spec fn next_index(&self, image: &ImageRegion) -> nat {
        if self.load_result(self.current() as int, image) is Ok {
            self.current() + 1
        } else {
            self.current()
        }
    }

    /// First line of the table as text: the number of applications.
    pub open spec fn count_line(&self) -> Seq<char> {
        "[kernel] num_app = "@ + decimal(self.count())
    }

    /// The line of application `i`: its index and the addresses it occupies.
    pub open spec fn range_line(&self, i: int) -> Seq<char> {
        "[kernel] app_"@ + decimal(i as nat) + " ["@ + hex(self.boundary(i) as nat) + ", "@
            + hex(self.boundary(i + 1) as nat) + "]"@
    }

    /// Line `k` of the table as text: the count, then one line per application.
    pub open spec fn table_line(&self, k: int) -> Seq<char> {
        if k == 0 {
            self.count_line()
        } else {
            self.range_line(k - 1)
        }
    }

    /// The table as text: the count, then the applications in order.
    pub open spec fn table_text(&self) -> Seq<Seq<char>> {
        Seq::new(self.count() + 1, |k: int| self.table_line(k))
    }

    /// Reads a raw table: the count of applications, then the boundaries.
    ///
    /// The index of the next application starts at zero.
    pub fn new(table: &[usize]) -> (manager: Result<Self, TableError>)
        ensures
            match table_error(table@) {
                Some(e) => manager matches Err(err) && err == e,
                None => {
                    &&& manager matches Ok(m)
                    &&& m.wf()
                    &&& m.count() == table@[0]
                    &&& m.current() == 0
                    &&& forall|i: int| 0 <= i <= m.count() ==> m.boundary(i) == table@[1 + i]
                },
            },
    {
        if table.len() == 0 {
            return Err(TableError::Truncated);
        }
        let num_app: usize = table[0];
        if num_app > MAX_APP_NUM {
            return Err(TableError::TooManyApps);
        }
        if table.len() < num_app + 2 {
            return Err(TableError::Truncated);
        }
        let mut app_start: [usize; APP_TABLE_SLOTS] = [0usize; APP_TABLE_SLOTS];
        app_start[0] = table[1];
        let mut i: usize = 0;
        while i < num_app
            invariant
                i <= num_app <= MAX_APP_NUM,
                num_app == table@[0],
                table@.len() >= num_app + 2,
                app_start@.len() == APP_TABLE_SLOTS,
                forall|j: int| 0 <= j <= i ==> app_start@[j] == table@[1 + j],
                forall|j: int| 0 <= j < i ==> !descends_at(table@, j),
                forall|a: int, b: int| 0 <= a <= b <= i ==> app_start@[a] <= app_start@[b],
            decreases num_app - i,
        {
            if table[1 + i] > table[2 + i] {
                assert(descends_at(table@, i as int));
                return Err(TableError::Unordered);
            }
            let ghost before = app_start@;
            app_start[i + 1] = table[2 + i];
            assert forall|a: int, b: int| 0 <= a <= b <= i + 1 implies app_start@[a]
                <= app_start@[b] by {
                if b == i + 1 && a <= i {
                    assert(before[a] <= before[i as int]);
                }
            }
            i += 1;
        }
        Ok(AppManagerInner { num_app, current_app: 0, app_start })
    }

    /// Number of applications in the table.
    pub fn get_num_app(&self) -> (n: usize)
        ensures
            n == self.count(),
    {
        self.num_app
    }

    /// Index of the application to run next.
    pub fn get_current_app(&self) -> (id: usize)
        ensures
            id == self.current(),
    {
        self.current_app
    }

    /// The addresses `[first, last)` within which all images lie: the first
    /// and the last boundary of the table.
    pub fn extent(&self) -> (range: (usize, usize))
        requires
            self.wf(),
        ensures
            range.0 == self.boundary(0),
            range.1 == self.boundary(self.count() as int),
            range.0 <= range.1,
    {
        (self.app_start[0], self.app_start[self.num_app])
    }

    /// The addresses `[start, end)` that application `id` occupies.
    pub fn app_range(&self, id: usize) -> (range: Option<(usize, usize)>)
        requires
            self.wf(),
        ensures
            range is Some <==> id < self.count(),
            range matches Some((start, end)) ==> start == self.boundary(id as int) && end
                == self.boundary(id + 1),
    {
        if id < self.num_app {
            Some((self.app_start[id], self.app_start[id + 1]))
        } else {
            None
        }
    }

    /// The table as text, one line for the console each: the number of
    /// applications, then the range of each application.
    pub fn print_app_info(&self) -> (lines: Vec<String>)
        requires
            self.wf(),
        ensures
            lines.deep_view() == self.table_text(),
    {
        let mut lines: Vec<String> = Vec::new();
        let mut first = String::from_str("[kernel] num_app = ");
        first.append(decimal_text(self.num_app).as_str());
        lines.push(first);
        let mut i: usize = 0;
        while i < self.num_app
            invariant
                self.wf(),
                i <= self.num_app,
                lines@.len() == i + 1,
                forall|k: int| 0 <= k <= i ==> (#[trigger] lines@[k])@ == self.table_line(k),
            decreases self.num_app - i,
        {
            let mut line = String::from_str("[kernel] app_");
            line.append(decimal_text(i).as_str());
            line.append(" [");
            line.append(hex_text(self.app_start[i]).as_str());
            line.append(", ");
            line.append(hex_text(self.app_start[i + 1]).as_str());
            line.append("]");
            assert(line@ == self.range_line(i as int));
            lines.push(line);
            i += 1;
        }
        assert(lines.deep_view() =~= self.table_text());
        lines
    }

    /// Loads application `app_id` from `image` into the execution window.
    ///
    /// The image is located and checked first. Only then is the whole window
    /// zeroed and the image copied to its start, so after a refusal the
    /// window still holds what it held before.
    pub fn load_app(
        &self,
        app_id: usize,
        image: &ImageRegion,
        window: &mut ExecutionWindow,
    ) -> (loaded: Result<(), LoadError>)
        requires
            self.wf(),
            image.wf(),
            old(window).wf(),
        ensures
            final(window).wf(),
            match self.load_result(app_id as int, image) {
                Ok(content) => loaded is Ok && final(window)@ == content,
                Err(e) => loaded == Err::<(), LoadError>(e) && final(window)@ == old(window)@,
            },
    {
        if app_id >= self.num_app {
            return Err(LoadError::AllAppsCompleted);
        }
        let start: usize = self.app_start[app_id];
        let end: usize = self.app_start[app_id + 1];
        assert(self.boundary(app_id as int) <= self.boundary(app_id + 1));
        if end - start > APP_SIZE_LIMIT {
            return Err(LoadError::ImageTooLarge);
        }
        match image.slice(start, end) {
            None => Err(LoadError::ImageOutOfRange),
            Some(source) => {
                window.load(source);
                Ok(())
            },
        }
    }

    /// Loads the next application, stages the context from which it is
    /// entered, and moves the index on.
    ///
    /// The address returned is the one to hand to the privilege switch. When
    /// the application cannot be loaded, nothing changes at all; past the last
    /// application the error is `AllAppsCompleted`.
    pub fn run_next_app(
        &mut self,
        image: &ImageRegion,
        window: &mut ExecutionWindow,
        stacks: &mut ExecutionStacks,
    ) -> (entered: Result<usize, LoadError>)
        requires
            old(self).wf(),
            image.wf(),
            old(window).wf(),
            old(stacks).wf(),
        ensures
            final(self).wf(),
            final(window).wf(),
            final(stacks).wf(),
            final(self).same_table(old(self)),
            final(self).current() == old(self).next_index(image),
            match old(self).load_result(old(self).current() as int, image) {
                Ok(content) => {
                    &&& entered matches Ok(cx_addr)
                    &&& cx_addr == old(stacks).kernel_stack().context_addr()
                    &&& final(window)@ == content
                    &&& final(stacks).staged_from(old(stacks))
                },
                Err(e) => {
                    &&& entered == Err::<usize, LoadError>(e)
                    &&& final(window)@ == old(window)@
                    &&& *final(stacks) == *old(stacks)
                },
            },
    {
        let current: usize = self.current_app;
        match self.load_app(current, image, window) {
            Err(e) => Err(e),
            Ok(()) => {
                let cx_addr = stacks.stage_entry_context();
                self.current_app = current + 1;
                assert forall|i: int, j: int| 0 <= i <= j <= self.count() implies 0
                    <= #[trigger] self.boundary(i) <= #[trigger] self.boundary(j) by {
                    assert(self.boundary(i) == old(self).boundary(i));
                    assert(self.boundary(j) == old(self).boundary(j));
                }
                Ok(cx_addr)
            },
        }
    }
}

/// A successful load leaves the image at the start of the window and zeros
/// behind it, up to the end of the window.
pub proof fn lemma_loaded_window_is_image_then_zeros(
    manager: AppManagerInner,
    id: int,
    image: ImageRegion,
)
    requires
        manager.wf(),
        image.wf(),
        0 <= id < manager.count(),
        manager.image_len(id) <= APP_SIZE_LIMIT,
        image.covers(manager.boundary(id), manager.boundary(id + 1)),
    ensures
        manager.load_result(id, &image) matches Ok(content) && {
            &&& content.len() == APP_SIZE_LIMIT
            &&& content.subrange(0, manager.image_len(id)) == image.range(
                manager.boundary(id),
                manager.boundary(id + 1),
            )
            &&& forall|j: int| manager.image_len(id) <= j < APP_SIZE_LIMIT ==> content[j] == 0u8
        },
{
    let source = image.range(manager.boundary(id), manager.boundary(id + 1));
    assert(manager.boundary(id) <= manager.boundary(id + 1));
    assert(padded_image(source).subrange(0, manager.image_len(id)) =~= source);
}

/// One past the last application nothing is loaded, whatever the image
/// region holds: the batch is finished.
pub proof fn lemma_load_past_last_is_completion(manager: AppManagerInner, image: ImageRegion)
    requires
        manager.wf(),
    ensures
        manager.load_result(manager.count() as int, &image) == Err::<Seq<u8>, LoadError>(
            LoadError::AllAppsCompleted,
        ),
        manager.current() == manager.count() ==> manager.next_index(&image) == manager.current(),
{
}

/// Whether `after` can be what `before` has become through one run against `image`.
pub open spec fn run_step(
    before: AppManagerInner,
    after: AppManagerInner,
    image: &ImageRegion,
) -> bool {
    after.same_table(&before) && after.current() == before.next_index(image)
}

/// Over any number of runs the index never goes back, and a run that entered
/// an application leaves every later run with a greater index: no
/// application is entered twice.
pub proof fn lemma_index_only_advances(
    states: Seq<AppManagerInner>,
    image: ImageRegion,
    i: int,
    j: int,
)
    requires
        forall|k: int|
            0 < k < states.len() ==> run_step(states[k - 1], #[trigger] states[k], &image),
        0 <= i <= j < states.len(),
    ensures
        states[i].current() <= states[j].current(),
        i < j && states[i + 1].current() != states[i].current() ==> states[i].current()
            < states[j].current(),
    decreases j - i,
{
    if i < j {
        lemma_index_only_advances(states, image, i, j - 1);
        assert(run_step(states[j - 1], states[j], &image));
        if i + 1 < j {
            lemma_index_only_advances(states, image, i + 1, j - 1);
        } else {
            assert(run_step(states[i], states[i + 1], &image));
        }
    }
}

/// The text of the table depends on the table alone, not on how far the
/// batch has run: every printing of it gives the same lines.
pub proof fn lemma_table_text_is_stable(a: AppManagerInner, b: AppManagerInner)
    requires
        a.same_table(&b),
    ensures
        a.table_text() == b.table_text(),
{
    assert forall|k: int| 0 <= k <= a.count() implies a.table_line(k) == b.table_line(k) by {
        if k > 0 {
            assert(a.boundary(k - 1) == b.boundary(k - 1));
            assert(a.boundary(k) == b.boundary(k));
        }
    }
    assert(a.table_text() =~= b.table_text());
}

} // verus!
