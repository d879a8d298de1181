//! The input handler's callback registries: one entry per key and one per mouse
//! button, where registering again for the same key or button replaces the entry.
use vstd::prelude::*;
use std::collections::HashMap;

verus! {

broadcast use vstd::std_specs::hash::group_hash_axioms;

/// Callbacks keyed by key code (`K`) and by mouse-button code (`M`, which carries the
/// screen region the click must land in alongside its callback).
pub struct CallbackRegistry<K, M> {
    key_event_callbacks: HashMap<u32, K>,
    mouse_click_event_callbacks: HashMap<u32, M>,
}

impl<K, M> CallbackRegistry<K, M> {
    /// The key callbacks, by key code.
    pub closed spec fn key_map(&self) -> Map<u32, K> {
        self.key_event_callbacks@
    }

    /// The mouse-click entries, by button code.
    pub closed spec fn mouse_map(&self) -> Map<u32, M> {
        self.mouse_click_event_callbacks@
    }

    /// A registry with no callbacks.
    pub fn new() -> (r: Self)
        ensures
            r.key_map() == Map::<u32, K>::empty(),
            r.mouse_map() == Map::<u32, M>::empty(),
    {
        CallbackRegistry {
            key_event_callbacks: HashMap::new(),
            mouse_click_event_callbacks: HashMap::new(),
        }
    }

    /// Registers `callback` for `key`, replacing what was registered for it before.
    pub fn add_key_event_callback(&mut self, key: u32, callback: K)
        ensures
            final(self).key_map() == old(self).key_map().insert(key, callback),
            final(self).mouse_map() == old(self).mouse_map(),
    {
        self.key_event_callbacks.insert(key, callback);
    }

    /// Registers a click entry for `button`, replacing what was registered for it
    /// before: the last registration of a button wins.
    pub fn add_mouse_click_event_callback(&mut self, button: u32, entry: M)
        ensures
            final(self).mouse_map() == old(self).mouse_map().insert(button, entry),
            final(self).key_map() == old(self).key_map(),
    {
        self.mouse_click_event_callbacks.insert(button, entry);
    }

    /// Forgets every click entry, so that only regions registered afterwards respond.
    pub fn clear_mouse_click_event_callbacks(&mut self)
        ensures
            final(self).mouse_map() == Map::<u32, M>::empty(),
            final(self).key_map() == old(self).key_map(),
    {
        self.mouse_click_event_callbacks.clear();
    }

    /// The callback registered for `key`, if any.
    pub fn key_callback(&self, key: u32) -> (r: Option<&K>)
        ensures
            match r {
                Some(c) => self.key_map().contains_key(key) && *c == self.key_map()[key],
                None => !self.key_map().contains_key(key),
            },
    {
        self.key_event_callbacks.get(&key)
    }

    /// The click entry registered for `button`, if any.
    pub fn mouse_click_callback(&self, button: u32) -> (r: Option<&M>)
        ensures
            match r {
                Some(e) => self.mouse_map().contains_key(button) && *e == self.mouse_map()[button],
                None => !self.mouse_map().contains_key(button),
            },
    {
        self.mouse_click_event_callbacks.get(&button)
    }
}

} // verus!
