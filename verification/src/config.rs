//! What the infrastructure configuration says of the regions to publish to.

use crate::error::Error;
use crate::text::{clone_opt, same_text};
use vstd::hash_map::StringHashMap;
use vstd::prelude::*;
use vstd::string::*;

verus! {

/// The configuration of one region.
#[derive(Debug)]
pub struct AwsRegionConfig {
    /// The role that is taken in the region.
    pub role: Option<String>,
}

/// The AWS part of the infrastructure configuration.
pub struct AwsConfig {
    /// The regions, in order.
    pub regions: Vec<String>,
    /// The role that is taken in a region that has none of its own.
    pub role: Option<String>,
    /// The regions that are configured by themselves, by name.
    pub region: StringHashMap<AwsRegionConfig>,
}

/// The model of [`AwsConfig`].
pub struct AwsConfigView {
    pub regions: Seq<Seq<char>>,
    pub role: Option<Seq<char>>,
    /// The role of each region that is configured by itself.
    pub region: Map<Seq<char>, Option<Seq<char>>>,
}

impl View for AwsConfig {
    type V = AwsConfigView;

    open spec fn view(&self) -> AwsConfigView {
        AwsConfigView {
            regions: crate::text::views(self.regions@),
            role: crate::text::opt_view(self.role),
            region: self.region@.map_values(
                |config: AwsRegionConfig| crate::text::opt_view(config.role),
            ),
        }
    }
}

impl AwsConfigView {
    /// The role that is taken in a region: its own, or else the general one.
    pub open spec fn role_in(self, name: Seq<char>) -> Option<Seq<char>> {
        if self.region.contains_key(name) && self.region[name] is Some {
            self.region[name]
        } else {
            self.role
        }
    }
}

/// The configuration that names nothing.
pub open spec fn empty_config() -> AwsConfigView {
    AwsConfigView { regions: Seq::empty(), role: None, region: Map::empty() }
}

impl AwsConfig {
    /// A configuration of regions none of which is configured by itself.
    pub fn new(regions: Vec<String>, role: Option<String>) -> (config: AwsConfig)
        ensures
            config@ == (AwsConfigView {
                regions: crate::text::views(regions@),
                role: crate::text::opt_view(role),
                region: Map::empty(),
            }),
    {
        let config = AwsConfig { regions, role, region: StringHashMap::new() };
        assert(config@.region == Map::<Seq<char>, Option<Seq<char>>>::empty());
        config
    }

    /// Configures the region of the given name, anew where it was configured.
    pub fn set_region(&mut self, name: String, config: AwsRegionConfig)
        ensures
            final(self)@ == (AwsConfigView {
                region: old(self)@.region.insert(name@, crate::text::opt_view(config.role)),
                ..old(self)@
            }),
    {
        self.region.insert(name, config);
        assert(self@.region == old(self)@.region.insert(
            name@,
            crate::text::opt_view(config.role),
        ));
    }

    /// The role that is taken in the region of the given name.
    pub fn role_in(&self, name: &str) -> (role: Option<String>)
        ensures
            crate::text::opt_view(role) == self@.role_in(name@),
    {
        match self.region.get(name) {
            Some(config) => match &config.role {
                Some(role) => Some(role.clone()),
                None => clone_opt(&self.role),
            },
            None => clone_opt(&self.role),
        }
    }
}

impl Default for AwsConfig {
    fn default() -> (config: Self)
        ensures
            config@ == empty_config(),
    {
        let config = AwsConfig::new(Vec::new(), None);
        assert(config@.regions == Seq::<Seq<char>>::empty());
        config
    }
}

/// The AWS configuration, given what came of reading the infrastructure
/// configuration: an empty one where that has no AWS part.
pub fn aws_config(loaded: Result<Option<AwsConfig>, String>) -> (r: Result<AwsConfig, Error>)
    ensures
        match loaded {
            Ok(Some(config)) => r == Ok::<AwsConfig, Error>(config),
            Ok(None) => r matches Ok(config) && config@ == empty_config(),
            Err(reason) => r matches Err(e) && e@ == (crate::error::ErrorView::Config {
                source: reason@,
            }),
        },
{
    match loaded {
        Ok(Some(config)) => Ok(config),
        Ok(None) => Ok(AwsConfig::default()),
        Err(source) => Err(Error::Config { source }),
    }
}

/// The configured regions that are asked for, in their configured order: all of
/// them where none is asked for.
pub open spec fn selected(configured: Seq<Seq<char>>, requested: Seq<Seq<char>>) -> Seq<Seq<char>> {
    configured.filter(|name: Seq<char>| requested.len() == 0 || requested.contains(name))
}

/// Whether `name` is in `list`.
fn has_text(list: &Vec<String>, name: &str) -> (r: bool)
    ensures
        r == crate::text::views(list@).contains(name@),
{
    for i in 0..list.len()
        invariant
            forall|j: int| 0 <= j < i ==> crate::text::views(list@)[j] != name@,
    {
        if same_text(list[i].as_str(), name) {
            assert(crate::text::views(list@)[i as int] == name@);
            return true;
        }
    }
    false
}

/// The configured regions that are asked for.
pub fn select_regions(configured: &Vec<String>, requested: &Vec<String>) -> (regions: Vec<String>)
    ensures
        crate::text::views(regions@) == selected(
            crate::text::views(configured@),
            crate::text::views(requested@),
        ),
{
    let ghost all = crate::text::views(configured@);
    let ghost asked = crate::text::views(requested@);
    let ghost pred = |name: Seq<char>| asked.len() == 0 || asked.contains(name);
    let mut regions: Vec<String> = Vec::new();
    proof {
        reveal(Seq::filter);
        assert(crate::text::views(regions@) == all.take(0).filter(pred));
    }
    for i in 0..configured.len()
        invariant
            all == crate::text::views(configured@),
            asked == crate::text::views(requested@),
            pred == (|name: Seq<char>| asked.len() == 0 || asked.contains(name)),
            crate::text::views(regions@) == all.take(i as int).filter(pred),
    {
        proof {
            reveal(Seq::filter);
            assert(all.take(i + 1).drop_last() == all.take(i as int));
            assert(all.take(i + 1).last() == configured@[i as int]@);
        }
        if requested.len() == 0 || has_text(requested, configured[i].as_str()) {
            let ghost before = regions@;
            regions.push(configured[i].clone());
            assert(crate::text::views(regions@) == crate::text::views(before).push(
                configured@[i as int]@,
            ));
        }
    }
    assert(all.take(all.len() as int) == all);
    regions
}

/// A region is published to if and only if it is configured and, where regions
/// are asked for, asked for.
pub proof fn lemma_selected_regions(
    configured: Seq<Seq<char>>,
    requested: Seq<Seq<char>>,
    name: Seq<char>,
)
    ensures
        selected(configured, requested).contains(name) <==> configured.contains(name) && (
        requested.len() == 0 || requested.contains(name)),
    decreases configured.len(),
{
    reveal(Seq::filter);
    if configured.len() > 0 {
        let front = configured.drop_last();
        lemma_selected_regions(front, requested, name);
        let pred = |name: Seq<char>| requested.len() == 0 || requested.contains(name);
        let chosen = selected(front, requested);
        if pred(configured.last()) {
            assert(selected(configured, requested) == chosen.push(configured.last()));
            assert(chosen.push(configured.last())[chosen.len() as int] == configured.last());
            if chosen.contains(name) {
                let i = choose|i: int| 0 <= i < chosen.len() && chosen[i] == name;
                assert(chosen.push(configured.last())[i] == name);
            }
        }
        if configured.contains(name) && name != configured.last() {
            let i = choose|i: int| 0 <= i < configured.len() && configured[i] == name;
            assert(front[i] == name);
        }
        if front.contains(name) {
            let i = choose|i: int| 0 <= i < front.len() && front[i] == name;
            assert(configured[i] == name);
        }
    }
}

/// All configured regions are published to, in order, where none is asked for.
pub proof fn lemma_all_regions_by_default(configured: Seq<Seq<char>>)
    ensures
        selected(configured, Seq::empty()) == configured,
    decreases configured.len(),
{
    reveal(Seq::filter);
    if configured.len() > 0 {
        lemma_all_regions_by_default(configured.drop_last());
        assert(configured.drop_last().push(configured.last()) == configured);
    }
}

/// A region's own role comes before the general one, and configuring a region
/// changes nothing for the others.
pub proof fn lemma_own_role_first(
    config: AwsConfigView,
    name: Seq<char>,
    role: Option<Seq<char>>,
    other: Seq<char>,
)
    ensures
        ({
            let set = AwsConfigView { region: config.region.insert(name, role), ..config };
            &&& set.role_in(name) == (if role is Some {
                role
            } else {
                config.role
            })
            &&& other != name ==> set.role_in(other) == config.role_in(other)
        }),
{
}

/// A region that is not configured by itself takes the general role, wherever it
/// stands in the list of regions and whether it stands there at all. One that
/// is takes its own role, or the general one where it has none.
pub proof fn lemma_role_choice(config: AwsConfigView, name: Seq<char>)
    ensures
        !config.region.contains_key(name) ==> config.role_in(name) == config.role,
        config.region.contains_key(name) && config.region[name] is Some ==> config.role_in(name)
            == config.region[name],
        config.region.contains_key(name) && config.region[name] is None ==> config.role_in(name)
            == config.role,
{
}

/// The role of a region depends neither on which regions are listed nor on what
/// other regions are configured by themselves.
pub proof fn lemma_role_of_region_alone(
    config: AwsConfigView,
    other: AwsConfigView,
    name: Seq<char>,
)
    requires
        config.role == other.role,
        config.region.contains_key(name) == other.region.contains_key(name),
        config.region.contains_key(name) ==> config.region[name] == other.region[name],
    ensures
        config.role_in(name) == other.role_in(name),
{
}

/// Of no regions none is selected. One more configured region is selected at the
/// end, and changes nothing else, where no region is asked for or it is asked
/// for; else it is left out.
pub proof fn lemma_selection_grows(
    configured: Seq<Seq<char>>,
    requested: Seq<Seq<char>>,
    name: Seq<char>,
)
    ensures
        selected(Seq::empty(), requested) == Seq::<Seq<char>>::empty(),
        requested.len() == 0 || requested.contains(name) ==> selected(
            configured.push(name),
            requested,
        ) == selected(configured, requested).push(name),
        requested.len() > 0 && !requested.contains(name) ==> selected(
            configured.push(name),
            requested,
        ) == selected(configured, requested),
{
    reveal(Seq::filter);
    assert(configured.push(name).drop_last() == configured);
}

/// The model of a configuration holds what the configuration holds, and the
/// empty configuration holds nothing.
pub proof fn lemma_config_model(config: AwsConfig, name: Seq<char>)
    ensures
        config@.regions.len() == config.regions@.len(),
        forall|i: int|
            0 <= i < config.regions@.len() ==> #[trigger] config@.regions[i] == config.regions@[i]@,
        config.role matches Some(role) ==> config@.role == Some(role@),
        config.role is None ==> config@.role is None,
        config@.region.contains_key(name) == config.region@.contains_key(name),
        config.region@.contains_key(name) ==> match config.region@[name].role {
            Some(role) => config@.region[name] == Some(role@),
            None => config@.region[name] is None,
        },
        empty_config().regions.len() == 0,
        empty_config().role is None,
        !empty_config().region.contains_key(name),
{
}

} // verus!
