//! Bookkeeping of loaded plugins and of the native libraries they came from.
use vstd::prelude::*;

verus! {

/// The lists that a plugin manager holds, in order of loading.
pub struct ManagerView<P, L> {
    pub plugins: Seq<P>,
    pub libraries: Seq<L>,
}

/// The lists after an unload: both empty.
pub open spec fn after_unload<P, L>(s: ManagerView<P, L>) -> ManagerView<P, L> {
    ManagerView { plugins: Seq::empty(), libraries: Seq::empty() }
}

/// What an unload hands back, for the host to finish: first the unload hook
/// of every plugin, in order, then the release of every library, in order.
/// A library is never released before the plugins it produced are unloaded.
pub struct Unloading<P, L> {
    pub plugins: Vec<P>,
    pub libraries: Vec<L>,
}

/// Keeps loaded plugins and the native libraries that their code lives in, so
/// that no library goes away while a plugin from it is still loaded.
pub struct PluginManager<P, L> {
    plugins: Vec<P>,
    loaded_libraries: Vec<L>,
}

impl<P, L> View for PluginManager<P, L> {
    type V = ManagerView<P, L>;

    closed spec fn view(&self) -> ManagerView<P, L> {
        ManagerView { plugins: self.plugins@, libraries: self.loaded_libraries@ }
    }
}

impl<P, L> PluginManager<P, L> {
    pub fn new() -> (r: PluginManager<P, L>)
        ensures
            r@.plugins == Seq::<P>::empty(),
            r@.libraries == Seq::<L>::empty(),
    {
        PluginManager { plugins: Vec::new(), loaded_libraries: Vec::new() }
    }

    /// Keeps an opened library for as long as the manager holds plugins.
    pub fn retain_library(&mut self, library: L)
        ensures
            final(self)@.libraries == old(self)@.libraries.push(library),
            final(self)@.plugins == old(self)@.plugins,
    {
        self.loaded_libraries.push(library);
    }

    /// The library retained last, where a constructor is looked up.
    pub fn last_library(&self) -> (r: Option<&L>)
        ensures
            self@.libraries.len() == 0 ==> r is None,
            self@.libraries.len() > 0 ==> r == Some(&self@.libraries.last()),
    {
        if self.loaded_libraries.len() == 0 {
            None
        } else {
            Some(&self.loaded_libraries[self.loaded_libraries.len() - 1])
        }
    }

    /// Keeps a plugin once its load hook has run.
    pub fn retain_plugin(&mut self, plugin: P)
        ensures
            final(self)@.plugins == old(self)@.plugins.push(plugin),
            final(self)@.libraries == old(self)@.libraries,
    {
        self.plugins.push(plugin);
    }

    /// Whether neither a plugin nor a library is held.
    pub fn is_empty(&self) -> (r: bool)
        ensures
            r == (self@.plugins.len() == 0 && self@.libraries.len() == 0),
    {
        self.plugins.len() == 0 && self.loaded_libraries.len() == 0
    }

    /// Empties the manager and hands back, in loading order, the plugins to
    /// unload and then the libraries to release.
    pub fn unload(&mut self) -> (r: Unloading<P, L>)
        ensures
            final(self)@ == after_unload(old(self)@),
            r.plugins@ == old(self)@.plugins,
            r.libraries@ == old(self)@.libraries,
    {
        let mut plugins: Vec<P> = Vec::new();
        let mut libraries: Vec<L> = Vec::new();
        std::mem::swap(&mut plugins, &mut self.plugins);
        std::mem::swap(&mut libraries, &mut self.loaded_libraries);
        assert(self@.plugins =~= Seq::<P>::empty());
        assert(self@.libraries =~= Seq::<L>::empty());
        Unloading { plugins, libraries }
    }
}

/// Unloading is idempotent: a second unload finds the manager empty, hands
/// back nothing and leaves it empty; an empty manager is left as it is.
pub proof fn lemma_unload_idempotent<P, L>(s: ManagerView<P, L>)
    ensures
        after_unload(s).plugins.len() == 0,
        after_unload(s).libraries.len() == 0,
        after_unload(after_unload(s)) == after_unload(s),
        s.plugins.len() == 0 && s.libraries.len() == 0 ==> after_unload(s) == s,
{
    if s.plugins.len() == 0 && s.libraries.len() == 0 {
        assert(s.plugins =~= Seq::<P>::empty());
        assert(s.libraries =~= Seq::<L>::empty());
    }
}

} // verus!
