//! Which libloot the answers come from.

use vstd::prelude::*;

verus! {

/// The version of libloot that this library is built with.
pub open spec fn linked_libloot_version() -> Seq<char> {
    "0.29.7"@
}

/// `libloot::libloot_version`: the version number of the libloot crate, as `major.minor.patch`.
#[verifier::external_body]
fn libloot_version() -> (r: String)
    ensures
        r@ == linked_libloot_version(),
{
    libloot::libloot_version()
}

/// `libloot::libloot_revision`: the source revision that libloot was built from. It is set when
/// libloot is built, so nothing is said of it.
#[verifier::external_body]
fn libloot_revision() -> (r: String) {
    libloot::libloot_revision()
}

/// The libloot that this library is built with.
#[derive(Debug)]
pub struct LibLootBuild {
    pub version: String,
    /// The source revision that libloot was built from.
    pub revision: String,
}

/// [`LibLootBuild`] with its texts as character sequences.
pub struct BuildView {
    pub version: Seq<char>,
    pub revision: Seq<char>,
}

impl View for LibLootBuild {
    type V = BuildView;

    open spec fn view(&self) -> BuildView {
        BuildView { version: self.version@, revision: self.revision@ }
    }
}

/// Asks libloot what it is. The revision is whatever libloot says: it is set when libloot is built.
pub fn libloot_build() -> (r: LibLootBuild)
    ensures
        r@.version == linked_libloot_version(),
{
    LibLootBuild { version: libloot_version(), revision: libloot_revision() }
}

/// What the server says of itself.
#[derive(Debug)]
pub struct ServerInfoOut {
    pub version: String,
    pub libloot_version: String,
    pub libloot_revision: String,
    pub executable: Option<String>,
    pub note: String,
}

/// What the server, in a given version, with a given libloot and run from a given file, says of
/// itself.
pub fn server_info(version: String, libloot: LibLootBuild, executable: Option<String>) -> (r:
    ServerInfoOut)
    ensures
        r.version == version,
        r.libloot_version == libloot.version,
        r.libloot_revision == libloot.revision,
        r.executable == executable,
        r.note@ == "LOOT metadata from masterlist/userlist + libloot; not Nexus."@,
{
    ServerInfoOut {
        version,
        libloot_version: libloot.version,
        libloot_revision: libloot.revision,
        executable,
        note: "LOOT metadata from masterlist/userlist + libloot; not Nexus.".to_owned(),
    }
}

/// The view of a build leaves nothing out, and the version that is linked is this one.
pub proof fn law_build_views(b: LibLootBuild)
    ensures
        b@.version == b.version@,
        b@.revision == b.revision@,
        linked_libloot_version() == seq!['0', '.', '2', '9', '.', '7'],
{
    reveal_strlit("0.29.7");
    assert(linked_libloot_version() =~= seq!['0', '.', '2', '9', '.', '7']);
}

} // verus!
