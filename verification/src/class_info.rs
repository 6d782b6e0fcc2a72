//! Names under which a class type was declared.

use vstd::prelude::*;

verus! {

/// What is known of a class type while the type graph is being built: its
/// name, its linkage name, the path of the namespaces around it (joined by
/// `::`) and whether the entry only declares the class.
pub struct ClassInfo {
    name: String,
    linkage_name: String,
    namespace: String,
    is_declaration: bool,
}

/// The mathematical value of a [`ClassInfo`].
pub struct ClassInfoView {
    pub name: Seq<char>,
    pub linkage_name: Seq<char>,
    pub namespace: Seq<char>,
    pub is_declaration: bool,
}

impl View for ClassInfo {
    type V = ClassInfoView;

    closed spec fn view(&self) -> ClassInfoView {
        ClassInfoView {
            name: self.name@,
            linkage_name: self.linkage_name@,
            namespace: self.namespace@,
            is_declaration: self.is_declaration,
        }
    }
}

impl ClassInfo {
    pub fn new(name: String, linkage_name: String, namespace: String, is_declaration: bool) -> (r:
        Self)
        ensures
            r@ == (ClassInfoView {
                name: name@,
                linkage_name: linkage_name@,
                namespace: namespace@,
                is_declaration,
            }),
    {
        ClassInfo { name, linkage_name, namespace, is_declaration }
    }

    pub fn name(&self) -> (r: &str)
        ensures
            r@ == self@.name,
    {
        self.name.as_str()
    }

    pub fn linkage_name(&self) -> (r: &str)
        ensures
            r@ == self@.linkage_name,
    {
        self.linkage_name.as_str()
    }

    pub fn namespace(&self) -> (r: &str)
        ensures
            r@ == self@.namespace,
    {
        self.namespace.as_str()
    }

    pub fn is_declaration(&self) -> (r: bool)
        ensures
            r == self@.is_declaration,
    {
        self.is_declaration
    }

    pub fn set_name(&mut self, name: String)
        ensures
            final(self)@ == (ClassInfoView { name: name@, ..old(self)@ }),
    {
        self.name = name;
    }

    pub fn set_linkage_name(&mut self, linkage_name: String)
        ensures
            final(self)@ == (ClassInfoView { linkage_name: linkage_name@, ..old(self)@ }),
    {
        self.linkage_name = linkage_name;
    }

    pub fn set_namespace(&mut self, namespace: String)
        ensures
            final(self)@ == (ClassInfoView { namespace: namespace@, ..old(self)@ }),
    {
        self.namespace = namespace;
    }

    pub fn set_is_declaration(&mut self, is_declaration: bool)
        ensures
            final(self)@ == (ClassInfoView { is_declaration, ..old(self)@ }),
    {
        self.is_declaration = is_declaration;
    }
}

} // verus!
