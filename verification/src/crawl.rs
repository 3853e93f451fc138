use vstd::prelude::*;

verus! {

/// Whether a file or a directory of this name is worth a visit: the
/// crawler stays out of the recycle bin, of the Windows directories and of
/// the application data.
pub open spec fn relevant(file_name: Seq<char>) -> bool {
    !(file_name == "$RECYCLE.BIN"@ || file_name == "Windows.old"@ || file_name == "Windows"@
        || file_name == "$GetCurrent"@ || file_name == "AppData"@)
}

/// The handler that is registered for `extension`: the one that was
/// registered for it last.
pub open spec fn handler_of(handles: Seq<(Seq<char>, usize)>, extension: Seq<char>) -> Option<usize>
    decreases handles.len(),
{
    if handles.len() == 0 {
        None
    } else if handles.last().0 == extension {
        Some(handles.last().1)
    } else {
        handler_of(handles.drop_last(), extension)
    }
}

/// `handles` with `handle` registered for each of `extensions`, in their order.
pub open spec fn with_handle(
    handles: Seq<(Seq<char>, usize)>,
    extensions: Seq<Seq<char>>,
    handle: usize,
) -> Seq<(Seq<char>, usize)> {
    handles + Seq::new(extensions.len(), |i: int| (extensions[i], handle))
}

/// The part of the file system crawler that decides: which entries are
/// worth a visit, and which handler a file goes to. A handler is known by
/// the number under which the caller keeps it.
pub struct WindowsCrawler {
    handles: Vec<(String, usize)>,
}

impl View for WindowsCrawler {
    type V = Seq<(Seq<char>, usize)>;

    closed spec fn view(&self) -> Seq<(Seq<char>, usize)> {
        Seq::new(self.handles@.len(), |i: int| (self.handles@[i].0@, self.handles@[i].1))
    }
}

impl WindowsCrawler {
    /// A crawler for which every file goes to the default handler.
    pub fn new() -> (r: WindowsCrawler)
        ensures
            r@ == Seq::<(Seq<char>, usize)>::empty(),
    {
        let r = WindowsCrawler { handles: Vec::new() };
        assert(r@ =~= Seq::<(Seq<char>, usize)>::empty());
        r
    }

    /// Registers the handler `handle` for the files with one of the
    /// extensions `exts`. It takes the place of a handler that was
    /// registered for one of them before.
    pub fn register_handle(&mut self, exts: &Vec<String>, handle: usize)
        ensures
            final(self)@ == with_handle(old(self)@, exts.deep_view(), handle),
    {
        let mut i: usize = 0;
        assert(self@ =~= with_handle(old(self)@, exts.deep_view().subrange(0, 0), handle));
        while i < exts.len()
            invariant
                i <= exts.len(),
                self@ == with_handle(old(self)@, exts.deep_view().subrange(0, i as int), handle),
            decreases exts.len() - i,
        {
            let ghost before = self@;
            self.handles.push((exts[i].clone(), handle));
            assert(self@ =~= before.push((exts@[i as int]@, handle)));
            assert(exts.deep_view()[i as int] == exts@[i as int]@);
            assert(self@ =~= with_handle(
                old(self)@,
                exts.deep_view().subrange(0, i + 1),
                handle,
            ));
            i += 1;
        }
        assert(exts.deep_view().subrange(0, i as int) =~= exts.deep_view());
    }

    /// The handler for a file with the extension `extension`; `None` where
    /// the file goes to the default handler.
    pub fn handler_for(&self, extension: &str) -> (r: Option<usize>)
        ensures
            r == handler_of(self@, extension@),
    {
        let wanted = extension.to_owned();
        let mut i: usize = self.handles.len();
        assert(self@.subrange(0, i as int) =~= self@);
        while i > 0
            invariant
                i <= self.handles.len(),
                wanted@ == extension@,
                handler_of(self@.subrange(0, i as int), extension@) == handler_of(self@, extension@),
            decreases i,
        {
            let ghost front = self@.subrange(0, i as int);
            assert(front.last() == self@[i - 1]);
            assert(front.drop_last() =~= self@.subrange(0, i - 1));
            i -= 1;
            if self.handles[i].0 == wanted {
                return Some(self.handles[i].1);
            }
        }
        None
    }

    /// Whether the entry with the name `file_name` is worth a visit.
    pub fn is_relevant_file(&self, file_name: &str) -> (r: bool)
        ensures
            r == relevant(file_name@),
    {
        let name = file_name.to_owned();
        let bin = "$RECYCLE.BIN".to_owned();
        let old_windows = "Windows.old".to_owned();
        let windows = "Windows".to_owned();
        let current = "$GetCurrent".to_owned();
        let data = "AppData".to_owned();
        !(name == bin || name == old_windows || name == windows || name == current || name == data)
    }
}

} // verus!
