//! The build-time entry: where the sources of a module lie and where the
//! generated text goes.

use crate::codegen::{check_interface, emit, emitted, first_bad_slot, slot_error, unsupported_in};
use crate::error::{BuildError, BuildErrorView, Error, ErrorView};
use crate::schema::interface::{Interface, InterfaceView};
use crate::schema::load::{
    interface_document, lemma_interface_is_well_formed, manifest_document,
};
use crate::yaml::yaml_document;
use crate::schema::manifest::{Manifest, ProvidesEntry, ProvidesEntryView};
use crate::table::{
    lemma_lookup_index, lemma_lookup_index_is, lookup, lookup_index, named_views,
};
use crate::text::str_eq;
use vstd::prelude::*;
use vstd::string::StringExecFns;

verus! {

/// What a build needs to know: the module's name, the path of its manifest,
/// the root under which the interfaces lie, and the directory of the output
/// where it is not the build's own.
#[derive(Debug)]
pub struct Builder {
    everest_core: String,
    manifest_path: String,
    module_name: String,
    out_dir: Option<String>,
}

/// The mathematical value of a [`Builder`].
pub struct BuilderView {
    pub everest_core: Seq<char>,
    pub manifest_path: Seq<char>,
    pub module_name: Seq<char>,
    pub out_dir: Option<Seq<char>>,
}

impl View for Builder {
    type V = BuilderView;

    closed spec fn view(&self) -> BuilderView {
        BuilderView {
            everest_core: self.everest_core@,
            manifest_path: self.manifest_path@,
            module_name: self.module_name@,
            out_dir: match self.out_dir {
                Some(path) => Some(path@),
                None => None,
            },
        }
    }
}

/// A name under a directory, as paths are joined: the name alone where
/// the directory is empty, and a separator between the two unless the
/// directory ends in one.
pub open spec fn joined_path(dir: Seq<char>, name: Seq<char>) -> Seq<char> {
    if dir.len() == 0 {
        name
    } else if dir.last() == '/' {
        dir + name
    } else {
        dir + "/"@ + name
    }
}

/// The path of the generated text: `generated.rs` in the directory set with
/// `out_dir`, or else in the build's own; none where there is neither.
pub open spec fn output_path_of(builder: BuilderView, default_dir: Option<Seq<char>>) -> Option<
    Seq<char>,
> {
    match builder.out_dir {
        Some(dir) => Some(joined_path(dir, "generated.rs"@)),
        None => match default_dir {
            Some(dir) => Some(joined_path(dir, "generated.rs"@)),
            None => None,
        },
    }
}

/// The path of the document of an interface: `interfaces/<name>.yaml` under
/// the root.
pub open spec fn interface_path_of(builder: BuilderView, interface: Seq<char>) -> Seq<char> {
    joined_path(builder.everest_core, "interfaces/"@ + interface + ".yaml"@)
}

/// Joins a name to a directory.
pub fn join_path(dir: &str, name: &str) -> (path: String)
    ensures
        path@ == joined_path(dir@, name@),
{
    let mut last: Option<char> = None;
    for c in it: dir.chars()
        invariant
            it.seq() == dir@,
            last == (if it.index() == 0 {
                None
            } else {
                Some(dir@[it.index() - 1])
            }),
    {
        last = Some(c);
    }
    match last {
        None => String::from_str(name),
        Some(c) => {
            let mut path = String::from_str(dir);
            if c != '/' {
                path.append("/");
            }
            path.append(name);
            path
        },
    }
}

impl Builder {
    /// A builder for a module, with no output directory set.
    pub fn new(module_name: &str, manifest_path: &str, everest_core: &str) -> (builder: Builder)
        ensures
            builder@ == (BuilderView {
                everest_core: everest_core@,
                manifest_path: manifest_path@,
                module_name: module_name@,
                out_dir: None,
            }),
    {
        Builder {
            everest_core: String::from_str(everest_core),
            module_name: String::from_str(module_name),
            manifest_path: String::from_str(manifest_path),
            out_dir: None,
        }
    }

    /// The builder with the output directory set.
    pub fn out_dir(self, path: &str) -> (builder: Builder)
        ensures
            builder@ == (BuilderView { out_dir: Some(path@), ..self@ }),
    {
        let mut builder = self;
        builder.out_dir = Some(String::from_str(path));
        builder
    }

    /// The name of the module.
    pub fn module_name(&self) -> (name: &str)
        ensures
            name@ == self@.module_name,
    {
        self.module_name.as_str()
    }

    /// The path of the manifest.
    pub fn manifest_path(&self) -> (path: &str)
        ensures
            path@ == self@.manifest_path,
    {
        self.manifest_path.as_str()
    }

    /// The path of the document of an interface.
    pub fn interface_path(&self, interface: &str) -> (path: String)
        ensures
            path@ == interface_path_of(self@, interface@),
    {
        let mut name = String::from_str("interfaces/");
        name.append(interface);
        name.append(".yaml");
        join_path(self.everest_core.as_str(), name.as_str())
    }

    /// The path of the generated text, with the build's own output directory
    /// as the default where there is one.
    pub fn output_path(&self, default_dir: Option<&str>) -> (path: Option<String>)
        ensures
            match path {
                Some(p) => output_path_of(
                    self@,
                    match default_dir {
                        Some(d) => Some(d@),
                        None => None,
                    },
                ) == Some(p@),
                None => self@.out_dir is None && default_dir is None,
            },
    {
        match &self.out_dir {
            Some(dir) => Some(join_path(dir.as_str(), "generated.rs")),
            None => match default_dir {
                Some(dir) => Some(join_path(dir, "generated.rs")),
                None => None,
            },
        }
    }
}

/// The texts of a list of named texts, entry by entry.
pub open spec fn named_texts(entries: Seq<(String, String)>) -> Seq<(Seq<char>, Seq<char>)> {
    Seq::new(entries.len(), |i: int| (entries[i].0@, entries[i].1@))
}

/// Whether `e` is what is wrong with the interface of a slot: its text is
/// not among those given, or is no interface, or holds a type that has no
/// mapping.
pub open spec fn is_load_error(
    entry: ProvidesEntryView,
    texts: Seq<(Seq<char>, Seq<char>)>,
    e: ErrorView,
) -> bool {
    match lookup(texts, entry.interface) {
        None => e == ErrorView::InterfaceNotFound(entry.interface),
        Some(text) => match interface_document(text) {
            None => e is SchemaViolation,
            Some(interface) => match unsupported_in(interface) {
                Some(path) => e == ErrorView::UnsupportedType(path),
                None => false,
            },
        },
    }
}

/// Whether the interface of a slot loads: its text is among those given, is
/// an interface, and holds no type without a mapping.
pub open spec fn loads(entry: ProvidesEntryView, texts: Seq<(Seq<char>, Seq<char>)>) -> bool {
    match lookup(texts, entry.interface) {
        None => false,
        Some(text) => match interface_document(text) {
            None => false,
            Some(interface) => unsupported_in(interface) is None,
        },
    }
}

/// The index of the first slot, from `from` on, whose interface does not
/// load, or the number of slots.
pub open spec fn first_unloaded(
    provides: Seq<(Seq<char>, ProvidesEntryView)>,
    texts: Seq<(Seq<char>, Seq<char>)>,
    from: int,
) -> int
    decreases provides.len() - from,
{
    if from < 0 || from >= provides.len() {
        provides.len() as int
    } else if !loads(provides[from].1, texts) {
        from
    } else {
        first_unloaded(provides, texts, from + 1)
    }
}

/// The interfaces of the slots, each under its name, in the order of the slots.
pub open spec fn loaded(
    provides: Seq<(Seq<char>, ProvidesEntryView)>,
    texts: Seq<(Seq<char>, Seq<char>)>,
) -> Seq<(Seq<char>, InterfaceView)> {
    Seq::new(
        provides.len(),
        |i: int|
            (
                provides[i].1.interface,
                interface_document(lookup(texts, provides[i].1.interface).unwrap()).unwrap(),
            ),
    )
}

/// The interface of a slot that loads, among the interfaces loaded.
pub proof fn lemma_loaded_slot_is_sound(
    provides: Seq<(Seq<char>, ProvidesEntryView)>,
    texts: Seq<(Seq<char>, Seq<char>)>,
    at: int,
)
    requires
        0 <= at < provides.len(),
        loads(provides[at].1, texts),
    ensures
        slot_error(provides[at].1, loaded(provides, texts)) is None,
{
    let given = loaded(provides, texts);
    let name = provides[at].1.interface;
    let text = lookup(texts, name).unwrap();
    let interface = interface_document(text).unwrap();
    lemma_interface_is_well_formed(yaml_document(text).unwrap());
    lemma_lookup_index(given, name);
    let j = lookup_index(given, name);
    assert(given[at].0 == name);
    assert(given[j] == (name, interface));
    assert(lookup(given, name) == Some(interface));
}

/// With every interface loaded, nothing is wrong with any slot.
pub proof fn lemma_loaded_slots_are_sound(
    provides: Seq<(Seq<char>, ProvidesEntryView)>,
    texts: Seq<(Seq<char>, Seq<char>)>,
    from: int,
)
    requires
        0 <= from <= provides.len(),
        forall|i: int| 0 <= i < provides.len() ==> loads((#[trigger] provides[i]).1, texts),
    ensures
        first_bad_slot(provides, loaded(provides, texts), from) == provides.len(),
    decreases provides.len() - from,
{
    if from < provides.len() {
        assert(loads(provides[from].1, texts));
        lemma_loaded_slot_is_sound(provides, texts, from);
        lemma_loaded_slots_are_sound(provides, texts, from + 1);
    }
}

/// What a build makes of the text of a manifest and the texts of its
/// interfaces: the source text of the module, or the first error with the
/// file that was read and the slot that it was read for.
pub open spec fn generated(
    builder: BuilderView,
    manifest_text: Seq<char>,
    texts: Seq<(Seq<char>, Seq<char>)>,
    r: Result<Seq<char>, BuildErrorView>,
) -> bool {
    match manifest_document(manifest_text) {
        None => r is Err && r->Err_0.file == Some(builder.manifest_path) && r->Err_0.slot is None
            && r->Err_0.error is SchemaViolation,
        Some(manifest) => {
            let bad = first_unloaded(manifest.provides, texts, 0);
            match r {
                Ok(text) => bad == manifest.provides.len() && text == emitted(
                    builder.module_name,
                    manifest,
                    loaded(manifest.provides, texts),
                ),
                Err(e) => {
                    &&& bad < manifest.provides.len()
                    &&& e.file == Some(
                        interface_path_of(builder, manifest.provides[bad].1.interface),
                    )
                    &&& e.slot == Some(manifest.provides[bad].0)
                    &&& is_load_error(manifest.provides[bad].1, texts, e.error)
                },
            }
        },
    }
}

/// The mathematical value of what a build returns.
pub open spec fn build_view(r: Result<String, BuildError>) -> Result<Seq<char>, BuildErrorView> {
    match r {
        Ok(text) => Ok(text@),
        Err(e) => Err(e@),
    }
}

impl Builder {
    /// Generates the source text of the module from the text of its
    /// manifest and the texts of its interfaces, each under the name of the
    /// interface. The first slot, in the order of their names, whose
    /// interface does not load decides the error, which names the file and
    /// the slot.
    pub fn generate(&self, manifest_text: &str, interface_texts: &Vec<(String, String)>) -> (r:
        Result<String, BuildError>)
        ensures
            generated(self@, manifest_text@, named_texts(interface_texts@), build_view(r)),
    {
        let manifest = match Manifest::parse(manifest_text) {
            Ok(manifest) => manifest,
            Err(e) => {
                return Err(
                    BuildError { file: Some(self.manifest_path.clone()), slot: None, error: e },
                );
            },
        };
        let interfaces = match self.load_slots(&manifest.provides, interface_texts) {
            Ok(interfaces) => interfaces,
            Err(e) => {
                return Err(e);
            },
        };
        proof {
            lemma_loaded_slots_are_sound(manifest@.provides, named_texts(interface_texts@), 0);
        }
        emit(self.module_name.as_str(), &manifest, &interfaces)
    }

    /// Loads the interfaces of the slots, in order, from the texts given.
    fn load_slots(
        &self,
        provides: &Vec<(String, ProvidesEntry)>,
        interface_texts: &Vec<(String, String)>,
    ) -> (r: Result<Vec<(String, Interface)>, BuildError>)
        ensures
            ({
                let slots = named_views(provides@);
                let texts = named_texts(interface_texts@);
                let bad = first_unloaded(slots, texts, 0);
                match r {
                    Ok(interfaces) => {
                        &&& bad == slots.len()
                        &&& named_views(interfaces@) == loaded(slots, texts)
                        &&& forall|i: int|
                            0 <= i < slots.len() ==> loads((#[trigger] slots[i]).1, texts)
                    },
                    Err(e) => {
                        &&& bad < slots.len()
                        &&& e@.file == Some(interface_path_of(self@, slots[bad].1.interface))
                        &&& e@.slot == Some(slots[bad].0)
                        &&& is_load_error(slots[bad].1, texts, e@.error)
                    },
                }
            }),
    {
        let ghost slots = named_views(provides@);
        let ghost texts = named_texts(interface_texts@);
        let mut interfaces: Vec<(String, Interface)> = Vec::new();
        let mut k: usize = 0;
        while k < provides.len()
            invariant
                k <= provides.len(),
                slots == named_views(provides@),
                texts == named_texts(interface_texts@),
                first_unloaded(slots, texts, 0) == first_unloaded(slots, texts, k as int),
                interfaces.len() == k,
                forall|j: int| 0 <= j < k ==> loads((#[trigger] slots[j]).1, texts),
                forall|j: int|
                    0 <= j < k ==> (#[trigger] interfaces@[j]).0@ == slots[j].1.interface
                        && interfaces@[j].1@ == interface_document(
                        lookup(texts, slots[j].1.interface).unwrap(),
                    ).unwrap(),
            decreases provides.len() - k,
        {
            let entry = &provides[k].1;
            assert(slots[k as int] == (provides@[k as int].0@, entry@));
            let interface = match load_slot(entry, interface_texts) {
                Ok(interface) => interface,
                Err(e) => {
                    return Err(
                        BuildError {
                            file: Some(self.interface_path(entry.interface.as_str())),
                            slot: Some(provides[k].0.clone()),
                            error: e,
                        },
                    );
                },
            };
            interfaces.push((entry.interface.clone(), interface));
            k += 1;
        }
        assert(named_views(interfaces@) =~= loaded(slots, texts));
        Ok(interfaces)
    }
}

/// Loads the interface of a slot from the texts given.
fn load_slot(entry: &ProvidesEntry, interface_texts: &Vec<(String, String)>) -> (r: Result<
    Interface,
    Error,
>)
    ensures
        match r {
            Ok(interface) => loads(entry@, named_texts(interface_texts@)) && interface_document(
                lookup(named_texts(interface_texts@), entry@.interface).unwrap(),
            ) == Some(interface@),
            Err(e) => !loads(entry@, named_texts(interface_texts@)) && is_load_error(
                entry@,
                named_texts(interface_texts@),
                e@,
            ),
        },
{
    let text = match find_text(interface_texts, entry.interface.as_str()) {
        Some(text) => text,
        None => {
            return Err(Error::InterfaceNotFound(entry.interface.clone()));
        },
    };
    let interface = match Interface::parse(text) {
        Ok(interface) => interface,
        Err(e) => {
            return Err(e);
        },
    };
    match check_interface(&interface) {
        Ok(()) => Ok(interface),
        Err(e) => Err(e),
    }
}

/// The first text named `key`.
fn find_text<'a>(entries: &'a Vec<(String, String)>, key: &str) -> (r: Option<&'a str>)
    ensures
        match r {
            Some(text) => lookup(named_texts(entries@), key@) == Some(text@),
            None => lookup(named_texts(entries@), key@) is None,
        },
{
    let ghost views = named_texts(entries@);
    let mut i: usize = 0;
    while i < entries.len()
        invariant
            i <= entries.len(),
            views == named_texts(entries@),
            forall|k: int| 0 <= k < i ==> (#[trigger] views[k]).0 != key@,
        decreases entries.len() - i,
    {
        if str_eq(entries[i].0.as_str(), key) {
            proof {
                lemma_lookup_index_is(views, key@, i as int);
            }
            return Some(entries[i].1.as_str());
        }
        i += 1;
    }
    proof {
        lemma_lookup_index_is(views, key@, i as int);
    }
    None
}

} // verus!
