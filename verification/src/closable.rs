use vstd::prelude::*;

verus! {

/// A resource that can be closed once and for all (a file handle): while
/// open it hands out its contents for use; once closed, never again.
pub struct Closable<F> {
    inner: Option<F>,
}

impl<F> Closable<F> {
    /// Whether the resource is still open.
    pub closed spec fn open(&self) -> bool {
        self.inner is Some
    }

    /// An open resource.
    pub fn new(f: F) -> (r: Self)
        ensures
            r.open(),
    {
        Closable { inner: Some(f) }
    }

    /// `close()` and `Symbol.dispose`: closes the resource (again, where it
    /// was closed already).
    pub fn close(&mut self)
        ensures
            !final(self).open(),
    {
        self.inner = None;
    }

    /// Whether the resource is still open.
    pub fn is_open(&self) -> (b: bool)
        ensures
            b == self.open(),
    {
        self.inner.is_some()
    }

    /// The resource for one use: none once closed (the use then fails as
    /// `file is closed`); using it leaves it open.
    pub fn get_mut(&mut self) -> (r: Option<&mut F>)
        ensures
            r is Some <==> old(self).open(),
            final(self).open() == old(self).open(),
    {
        match &mut self.inner {
            Some(f) => Some(f),
            None => None,
        }
    }
}

} // verus!
