use vstd::prelude::*;

use crate::version::Version;

verus! {

/// The character sequences of a list of names.
pub open spec fn name_views(s: Seq<String>) -> Seq<Seq<char>> {
    s.map_values(|e: String| e@)
}

/// Holds of the names that `supported` lacks.
pub open spec fn absent_from(supported: Seq<Seq<char>>) -> spec_fn(Seq<char>) -> bool {
    |x: Seq<char>| !supported.contains(x)
}

/// A builder collecting what an instance of the graphics API should be
/// created with: the requested API version, extensions, layers, and the
/// application name and version handed to the driver.
///
/// The builder only gathers and validates; creating the instance itself
/// is the caller's side of the boundary.
#[derive(Debug)]
pub struct InstanceBuilder {
    api_version: Version,
    enable_extensions: Vec<String>,
    enable_layers: Vec<String>,
    app_name: Option<String>,
    app_version: Option<Version>,
}

impl InstanceBuilder {
    /// The API version the instance will be requested with.
    pub closed spec fn api_version_spec(self) -> Version {
        self.api_version
    }

    /// The extensions requested so far, in the order they were added.
    pub closed spec fn extensions_spec(self) -> Seq<Seq<char>> {
        name_views(self.enable_extensions@)
    }

    /// The layers requested so far, in the order they were added.
    pub closed spec fn layers_spec(self) -> Seq<Seq<char>> {
        name_views(self.enable_layers@)
    }

    /// The application name the driver will be given, if one was set.
    pub closed spec fn app_name_spec(self) -> Option<Seq<char>> {
        match self.app_name {
            Some(ref s) => Some(s@),
            None => None,
        }
    }

    /// The application version the driver will be given, if one was set.
    pub closed spec fn app_version_spec(self) -> Option<Version> {
        self.app_version
    }

    /// A builder with no extensions, no layers, no application name or
    /// version, requesting API version 1.0.
    pub fn new() -> (b: InstanceBuilder)
        ensures
            b.api_version_spec() == (Version { variant: 0u32, major: 1u32, minor: 0u32, patch: 0u32 }),
            b.extensions_spec() == Seq::<Seq<char>>::empty(),
            b.layers_spec() == Seq::<Seq<char>>::empty(),
            b.app_name_spec() is None,
            b.app_version_spec() is None,
    {
        let b = InstanceBuilder {
            api_version: Version::version_1_0(),
            enable_extensions: Vec::new(),
            enable_layers: Vec::new(),
            app_name: None,
            app_version: None,
        };
        proof {
            assert(b.extensions_spec() =~= Seq::<Seq<char>>::empty());
            assert(b.layers_spec() =~= Seq::<Seq<char>>::empty());
        }
        b
    }

    /// Sets the API version to request when creating an instance.
    pub fn api_version(self, version: Version) -> (b: InstanceBuilder)
        ensures
            b.api_version_spec() == version,
            b.extensions_spec() == self.extensions_spec(),
            b.layers_spec() == self.layers_spec(),
            b.app_name_spec() == self.app_name_spec(),
            b.app_version_spec() == self.app_version_spec(),
    {
        let mut b = self;
        b.api_version = version;
        b
    }

    /// Adds an instance extension to request. The extension must be
    /// supported by the runtime or building the instance will fail.
    pub fn extension(self, extension: String) -> (b: InstanceBuilder)
        ensures
            b.api_version_spec() == self.api_version_spec(),
            b.extensions_spec() == self.extensions_spec().push(extension@),
            b.layers_spec() == self.layers_spec(),
            b.app_name_spec() == self.app_name_spec(),
            b.app_version_spec() == self.app_version_spec(),
    {
        let mut b = self;
        b.enable_extensions.push(extension);
        proof {
            assert(b.extensions_spec() =~= self.extensions_spec().push(extension@));
        }
        b
    }

    /// Adds an instance layer to request. The layer must be supported by
    /// the runtime or building the instance will fail.
    pub fn layer(self, layer: String) -> (b: InstanceBuilder)
        ensures
            b.api_version_spec() == self.api_version_spec(),
            b.extensions_spec() == self.extensions_spec(),
            b.layers_spec() == self.layers_spec().push(layer@),
            b.app_name_spec() == self.app_name_spec(),
            b.app_version_spec() == self.app_version_spec(),
    {
        let mut b = self;
        b.enable_layers.push(layer);
        proof {
            assert(b.layers_spec() =~= self.layers_spec().push(layer@));
        }
        b
    }

    /// Sets the application name the driver is given when creating an
    /// instance.
    pub fn app_name(self, name: String) -> (b: InstanceBuilder)
        ensures
            b.api_version_spec() == self.api_version_spec(),
            b.extensions_spec() == self.extensions_spec(),
            b.layers_spec() == self.layers_spec(),
            b.app_name_spec() == Some(name@),
            b.app_version_spec() == self.app_version_spec(),
    {
        let mut b = self;
        b.app_name = Some(name);
        b
    }

    /// Sets the application version the driver is given when creating an
    /// instance.
    pub fn app_version(self, version: Version) -> (b: InstanceBuilder)
        ensures
            b.api_version_spec() == self.api_version_spec(),
            b.extensions_spec() == self.extensions_spec(),
            b.layers_spec() == self.layers_spec(),
            b.app_name_spec() == self.app_name_spec(),
            b.app_version_spec() == Some(version),
    {
        let mut b = self;
        b.app_version = Some(version);
        b
    }

    /// The requested extensions, for the caller that creates the
    /// instance.
    pub fn requested_extensions(&self) -> (r: &Vec<String>)
        ensures
            name_views(r@) == self.extensions_spec(),
    {
        &self.enable_extensions
    }

    /// The requested layers, for the caller that creates the instance.
    pub fn requested_layers(&self) -> (r: &Vec<String>)
        ensures
            name_views(r@) == self.layers_spec(),
    {
        &self.enable_layers
    }

    /// The requested API version, for the caller that creates the
    /// instance.
    pub fn requested_api_version(&self) -> (v: Version)
        ensures
            v == self.api_version_spec(),
    {
        self.api_version
    }

    /// The application name, for the caller that creates the instance.
    pub fn requested_app_name(&self) -> (r: &Option<String>)
        ensures
            match r {
                Some(s) => self.app_name_spec() == Some(s@),
                None => self.app_name_spec() is None,
            },
    {
        &self.app_name
    }

    /// The application version, for the caller that creates the instance.
    pub fn requested_app_version(&self) -> (r: Option<Version>)
        ensures
            r == self.app_version_spec(),
    {
        self.app_version
    }
}

/// Whether some entry of `list` has exactly the characters of `x`.
pub fn contains_entry(list: &Vec<String>, x: &String) -> (r: bool)
    ensures
        r == name_views(list@).contains(x@),
{
    let n: usize = list.len();
    let mut i: usize = 0;
    while i < n
        invariant
            n == list@.len(),
            0 <= i <= n,
            forall|j: int| 0 <= j < i ==> name_views(list@)[j] != x@,
        decreases n - i,
    {
        if list[i] == *x {
            proof {
                assert(name_views(list@)[i as int] == x@);
            }
            return true;
        }
        i = i + 1;
    }
    false
}

/// The requested entries that the supported list lacks, in request order:
/// exactly the requested names whose characters no supported name
/// matches. Building an instance must fail when this is non-empty.
pub fn missing_entries(requested: &Vec<String>, supported: &Vec<String>) -> (missing: Vec<
    String,
>)
    ensures
        name_views(missing@) == name_views(requested@).filter(
            absent_from(name_views(supported@)),
        ),
{
    let ghost pred = absent_from(name_views(supported@));
    let mut missing: Vec<String> = Vec::new();
    let n: usize = requested.len();
    let mut i: usize = 0;
    proof {
        assert(name_views(requested@.subrange(0, 0)) =~= Seq::<Seq<char>>::empty());
        assert(name_views(missing@) =~= Seq::<Seq<char>>::empty());
    }
    while i < n
        invariant
            n == requested@.len(),
            0 <= i <= n,
            name_views(missing@) == name_views(requested@.subrange(0, i as int)).filter(pred),
            pred == absent_from(name_views(supported@)),
        decreases n - i,
    {
        let ghost pre = name_views(requested@.subrange(0, i as int));
        let ghost post = name_views(requested@.subrange(0, i as int + 1));
        proof {
            assert(post =~= pre.push(requested@[i as int]@));
            pre.lemma_filter_push(requested@[i as int]@, pred);
        }
        let absent = !contains_entry(supported, &requested[i]);
        let ghost before = missing@;
        if absent {
            let entry = requested[i].clone();
            missing.push(entry);
            proof {
                assert(name_views(missing@) =~= name_views(before).push(
                    requested@[i as int]@,
                ));
            }
        }
        i = i + 1;
    }
    proof {
        assert(requested@.subrange(0, n as int) =~= requested@);
    }
    missing
}

} // verus!
