//! The external tabline as the redraw events leave it.

use vstd::prelude::*;

use crate::value::Value;

verus! {

/// A tabpage handle: the msgpack extension type and data Neovim identifies it by.
#[derive(Debug, PartialEq, Eq)]
pub struct Tabpage {
    pub ext: (i8, Vec<u8>),
}

impl Tabpage {
    /// The tabpage a msgpack extension value names.
    pub fn new(code_data: Value) -> (r: Self)
        requires
            code_data is Ext,
        ensures
            code_data matches Value::Ext(a, b) && r.ext == (a, b),
    {
        match code_data {
            Value::Ext(a, b) => Tabpage { ext: (a, b) },
            _ => Tabpage { ext: (0, Vec::new()) },
        }
    }
}

/// The current tab and the named tabs.
#[derive(Debug)]
pub struct ExtTabline {
    current_tab: Option<Tabpage>,
    tabs: Vec<(String, Tabpage)>,
}

impl ExtTabline {
    pub closed spec fn current(&self) -> Option<Tabpage> {
        self.current_tab
    }

    pub closed spec fn tab_list(&self) -> Seq<(String, Tabpage)> {
        self.tabs@
    }

    pub fn new() -> (r: Self)
        ensures
            r.current() is None,
            r.tab_list().len() == 0,
    {
        ExtTabline { current_tab: None, tabs: Vec::new() }
    }

    pub fn update(&mut self, current_tab: Tabpage, tabs: Vec<(String, Tabpage)>)
        ensures
            final(self).current() == Some(current_tab),
            final(self).tab_list() == tabs@,
    {
        self.current_tab = Some(current_tab);
        self.tabs = tabs;
    }

    pub fn current_tab(&self) -> (r: Option<&Tabpage>)
        ensures
            r.is_some() == self.current().is_some(),
            r matches Some(t) ==> *t == self.current().unwrap(),
    {
        self.current_tab.as_ref()
    }

    pub fn tabs(&self) -> (r: &[(String, Tabpage)])
        ensures
            r@ == self.tab_list(),
    {
        self.tabs.as_slice()
    }
}

} // verus!
