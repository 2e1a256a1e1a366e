//! Content classification of a catalog record: what kind of item it is, and
//! for games, how it is distributed. The classification decides the
//! directory, relative to the archive root, under which packaged archives of
//! the record are filed.
use vstd::prelude::*;

use crate::dl_site::{spec_build_id, DLContentType};


verus! {

/// Represents the type of game, such as RPG Maker.
#[derive(Debug, Clone, Copy, PartialEq, Eq, Structural)]
pub enum GameType {
    Unspecified,
    RPG,
    SLG,
    AVG,
}

impl Default for GameType {
    fn default() -> (r: Self)
        ensures
            r == GameType::Unspecified,
    {
        GameType::Unspecified
    }
}

/// Represents the platform on which a game can run.
#[derive(Debug, Clone, Copy, PartialEq, Eq, Structural)]
pub enum GameSysPlatform {
    Windows,
    Linux,
    MacOS,
    Android,
    IOS,
    Web,
}

/// Identifies a game sold on Steam.
#[derive(Debug, Clone)]
pub struct SteamDistributionData {
    pub app_id: String,
}

/// The ghost value of a `SteamDistributionData`.
pub ghost struct SteamDistributionDataView {
    pub app_id: Seq<char>,
}

impl View for SteamDistributionData {
    type V = SteamDistributionDataView;

    open spec fn view(&self) -> SteamDistributionDataView {
        SteamDistributionDataView { app_id: self.app_id@ }
    }
}

/// Identifies a game sold on the DLSite.
#[derive(Debug, Clone)]
pub struct DLSiteDistributionData {
    pub id: String,
    pub content_type: DLContentType,
}

/// The ghost value of a `DLSiteDistributionData`.
pub ghost struct DLSiteDistributionDataView {
    pub id: Seq<char>,
    pub content_type: DLContentType,
}

impl View for DLSiteDistributionData {
    type V = DLSiteDistributionDataView;

    open spec fn view(&self) -> DLSiteDistributionDataView {
        DLSiteDistributionDataView { id: self.id@, content_type: self.content_type }
    }
}

impl DLSiteDistributionData {
    /// The full product id: the category prefix followed by the bare id.
    pub fn full_id(&self) -> (r: String)
        ensures
            r@ == spec_build_id(self.content_type, self.id@),
    {
        self.content_type.build_id(self.id.as_str())
    }
}

/// Identifies a game from any other storefront by free-form name and id.
#[derive(Debug, Clone)]
pub struct OtherDistributionData {
    pub name: String,
    pub id: String,
}

/// The ghost value of an `OtherDistributionData`.
pub ghost struct OtherDistributionDataView {
    pub name: Seq<char>,
    pub id: Seq<char>,
}

impl View for OtherDistributionData {
    type V = OtherDistributionDataView;

    open spec fn view(&self) -> OtherDistributionDataView {
        OtherDistributionDataView { name: self.name@, id: self.id@ }
    }
}

/// Represents the distribution method of a game, such as Steam or DLSite.
#[derive(Debug, Clone)]
pub enum GameDistribution {
    Unknown,
    Steam(SteamDistributionData),
    DLSite(DLSiteDistributionData),
    Other(OtherDistributionData),
}

/// The ghost value of a `GameDistribution`.
pub ghost enum GameDistributionView {
    Unknown,
    Steam(SteamDistributionDataView),
    DLSite(DLSiteDistributionDataView),
    Other(OtherDistributionDataView),
}

impl View for GameDistribution {
    type V = GameDistributionView;

    open spec fn view(&self) -> GameDistributionView {
        match self {
            GameDistribution::Unknown => GameDistributionView::Unknown,
            GameDistribution::Steam(d) => GameDistributionView::Steam(d@),
            GameDistribution::DLSite(d) => GameDistributionView::DLSite(d@),
            GameDistribution::Other(d) => GameDistributionView::Other(d@),
        }
    }
}

impl Default for GameDistribution {
    fn default() -> (r: Self)
        ensures
            r@ == GameDistributionView::Unknown,
    {
        GameDistribution::Unknown
    }
}

/// The directory name, under the content kind, for a distribution method.
pub open spec fn spec_dist_dir_name(d: GameDistributionView) -> Seq<char> {
    match d {
        GameDistributionView::Unknown => "unknown"@,
        GameDistributionView::Steam(_) => "steam"@,
        GameDistributionView::DLSite(_) => "dl"@,
        GameDistributionView::Other(_) => "other"@,
    }
}

/// The natural file name for an archive of a distribution: the storefront's
/// identifier where one exists, a timestamped placeholder otherwise.
pub open spec fn spec_dist_file_name(d: GameDistributionView, stamp: Seq<char>) -> Seq<char> {
    match d {
        GameDistributionView::Unknown => "Unknown-"@ + stamp,
        GameDistributionView::Steam(s) => s.app_id,
        GameDistributionView::DLSite(s) => spec_build_id(s.content_type, s.id),
        GameDistributionView::Other(s) => s.name + "-"@ + s.id,
    }
}

impl GameDistribution {
    /// The directory name this distribution files its archives under.
    pub fn dir_name(&self) -> (r: &'static str)
        ensures
            r@ == spec_dist_dir_name(self@),
    {
        match self {
            Self::Unknown => "unknown",
            Self::Steam(_) => "steam",
            Self::DLSite(_) => "dl",
            Self::Other(_) => "other",
        }
    }

    /// The natural archive file name; `stamp` stands in when the storefront
    /// is unknown.
    pub fn file_name(&self, stamp: &str) -> (r: String)
        ensures
            r@ == spec_dist_file_name(self@, stamp@),
    {
        match self {
            Self::Unknown => {
                let mut s = String::from_str("Unknown-");
                s.append(stamp);
                s
            },
            Self::Steam(data) => data.app_id.clone(),
            Self::DLSite(data) => data.full_id(),
            Self::Other(data) => {
                let mut s = String::from_str(data.name.as_str());
                s.append("-");
                s.append(data.id.as_str());
                proof {
                    assert(s@ =~= spec_dist_file_name(self@, stamp@));
                }
                s
            },
        }
    }
}

/// Represents game data, including version, developer, publisher, and
/// platform information.
#[derive(Debug, Clone)]
pub struct GameData {
    pub version: String,
    pub game_type: GameType,
    pub developer: Option<String>,
    pub publisher: Option<String>,
    pub sys_platform: Vec<GameSysPlatform>,
    pub distribution: GameDistribution,
}

/// The ghost value of a `GameData`.
pub ghost struct GameDataView {
    pub version: Seq<char>,
    pub game_type: GameType,
    pub developer: Option<Seq<char>>,
    pub publisher: Option<Seq<char>>,
    pub sys_platform: Seq<GameSysPlatform>,
    pub distribution: GameDistributionView,
}

impl View for GameData {
    type V = GameDataView;

    open spec fn view(&self) -> GameDataView {
        GameDataView {
            version: self.version@,
            game_type: self.game_type,
            developer: self.developer.deep_view(),
            publisher: self.publisher.deep_view(),
            sys_platform: self.sys_platform@,
            distribution: self.distribution@,
        }
    }
}

/// The version string a record gets when none was supplied.
pub fn default_version() -> (r: String)
    ensures
        r@ == "1.0.0"@,
{
    String::from_str("1.0.0")
}

/// Represents the type of content for a data item, with detailed information.
#[derive(Debug, Clone)]
pub enum ContentInfo {
    Undefined,
    Game(GameData),
}

/// The ghost value of a `ContentInfo`.
pub ghost enum ContentInfoView {
    Undefined,
    Game(GameDataView),
}

impl View for ContentInfo {
    type V = ContentInfoView;

    open spec fn view(&self) -> ContentInfoView {
        match self {
            ContentInfo::Undefined => ContentInfoView::Undefined,
            ContentInfo::Game(d) => ContentInfoView::Game(d@),
        }
    }
}

impl Default for ContentInfo {
    fn default() -> (r: Self)
        ensures
            r@ == ContentInfoView::Undefined,
    {
        ContentInfo::Undefined
    }
}

/// The directory path, relative to the archive root, for a content kind:
/// the content kind's name, then for games the distribution's name.
pub open spec fn spec_path_rel(c: ContentInfoView) -> Seq<char> {
    match c {
        ContentInfoView::Undefined => "undefined"@,
        ContentInfoView::Game(d) => "game/"@ + spec_dist_dir_name(d.distribution),
    }
}

/// The natural archive file name for a content kind.
pub open spec fn spec_content_file_name(c: ContentInfoView, stamp: Seq<char>) -> Seq<char> {
    match c {
        ContentInfoView::Undefined => "Content-"@ + stamp,
        ContentInfoView::Game(d) => spec_dist_file_name(d.distribution, stamp),
    }
}

impl ContentInfo {
    /// The directory names, outermost first, this content kind files its
    /// archives under.
    pub fn dir_name(&self) -> (r: Vec<&'static str>)
        ensures
            self@ is Undefined ==> r.deep_view() =~= seq!["undefined"@],
            self@ is Game ==> r.deep_view() =~= seq![
                "game"@,
                spec_dist_dir_name(self@->Game_0.distribution),
            ],
    {
        match self {
            Self::Undefined => {
                let mut v: Vec<&'static str> = Vec::new();
                v.push("undefined");
                v
            },
            Self::Game(data) => {
                let mut v: Vec<&'static str> = Vec::new();
                v.push("game");
                v.push(data.distribution.dir_name());
                v
            },
        }
    }

    /// The relative path, from the archive root, under which archives of
    /// this content kind are stored. The stored record never embeds the
    /// root; callers join this with the configured archive root at read
    /// time.
    pub fn path_rel(&self) -> (r: String)
        ensures
            r@ == spec_path_rel(self@),
    {
        match self {
            Self::Undefined => String::from_str("undefined"),
            Self::Game(data) => {
                let mut s = String::from_str("game/");
                s.append(data.distribution.dir_name());
                s
            },
        }
    }

    /// The natural archive file name; `stamp` stands in when nothing better
    /// is known.
    pub fn file_name(&self, stamp: &str) -> (r: String)
        ensures
            r@ == spec_content_file_name(self@, stamp@),
    {
        match self {
            Self::Undefined => {
                let mut s = String::from_str("Content-");
                s.append(stamp);
                s
            },
            Self::Game(data) => data.distribution.file_name(stamp),
        }
    }
}

impl GameDistribution {
    /// A field-by-field copy of this distribution, equal to it.
    pub fn duplicate(&self) -> (r: Self)
        ensures
            r@ == self@,
    {
        match self {
            Self::Unknown => Self::Unknown,
            Self::Steam(d) => Self::Steam(SteamDistributionData { app_id: d.app_id.clone() }),
            Self::DLSite(d) => Self::DLSite(
                DLSiteDistributionData { id: d.id.clone(), content_type: d.content_type },
            ),
            Self::Other(d) => Self::Other(
                OtherDistributionData { name: d.name.clone(), id: d.id.clone() },
            ),
        }
    }
}

impl ContentInfo {
    /// A field-by-field copy of this classification, equal to it.
    pub fn duplicate(&self) -> (r: Self)
        ensures
            r@ == self@,
    {
        match self {
            Self::Undefined => Self::Undefined,
            Self::Game(g) => {
                let r = ContentInfo::Game(
                    GameData {
                        version: g.version.clone(),
                        game_type: g.game_type,
                        developer: crate::text::clone_opt_string(&g.developer),
                        publisher: crate::text::clone_opt_string(&g.publisher),
                        sys_platform: clone_platforms(&g.sys_platform),
                        distribution: g.distribution.duplicate(),
                    },
                );
                proof {
                    assert(r@ =~= self@);
                }
                r
            },
        }
    }
}

/// A copy of a platform list, with its values.
fn clone_platforms(l: &Vec<GameSysPlatform>) -> (r: Vec<GameSysPlatform>)
    ensures
        r@ == l@,
{
    let mut out: Vec<GameSysPlatform> = Vec::new();
    let n = l.len();
    let mut i: usize = 0;
    while i < n
        invariant
            n == l@.len(),
            i <= n,
            out@ =~= l@.take(i as int),
        decreases n - i,
    {
        out.push(l[i]);
        proof {
            assert(out@ =~= l@.take(i + 1));
        }
        i += 1;
    }
    proof {
        assert(l@.take(n as int) =~= l@);
    }
    out
}

// Hand-written equality: these types hold strings, so the structural derive
// is not available.
fn platforms_eq(a: &Vec<GameSysPlatform>, b: &Vec<GameSysPlatform>) -> (r: bool)
    ensures
        r == (a@ == b@),
{
    if a.len() != b.len() {
        assert(a@.len() != b@.len());
        return false;
    }
    let n = a.len();
    let mut i: usize = 0;
    while i < n
        invariant
            n == a.len() == b.len(),
            i <= n,
            forall|j: int| 0 <= j < i ==> a@[j] == b@[j],
        decreases n - i,
    {
        if !(a[i] == b[i]) {
            return false;
        }
        i += 1;
    }
    proof {
        assert(a@ =~= b@);
    }
    true
}

impl PartialEq for SteamDistributionData {
    fn eq(&self, other: &Self) -> (r: bool)
        ensures
            r == (self@ == other@),
    {
        self.app_id == other.app_id
    }
}

impl vstd::std_specs::cmp::PartialEqSpecImpl for SteamDistributionData {
    open spec fn obeys_eq_spec() -> bool {
        true
    }

    open spec fn eq_spec(&self, other: &Self) -> bool {
        self@ == other@
    }
}

impl PartialEq for DLSiteDistributionData {
    fn eq(&self, other: &Self) -> (r: bool)
        ensures
            r == (self@ == other@),
    {
        self.id == other.id && self.content_type == other.content_type
    }
}

impl vstd::std_specs::cmp::PartialEqSpecImpl for DLSiteDistributionData {
    open spec fn obeys_eq_spec() -> bool {
        true
    }

    open spec fn eq_spec(&self, other: &Self) -> bool {
        self@ == other@
    }
}

impl PartialEq for OtherDistributionData {
    fn eq(&self, other: &Self) -> (r: bool)
        ensures
            r == (self@ == other@),
    {
        self.name == other.name && self.id == other.id
    }
}

impl vstd::std_specs::cmp::PartialEqSpecImpl for OtherDistributionData {
    open spec fn obeys_eq_spec() -> bool {
        true
    }

    open spec fn eq_spec(&self, other: &Self) -> bool {
        self@ == other@
    }
}

impl PartialEq for GameDistribution {
    fn eq(&self, other: &Self) -> (r: bool)
        ensures
            r == (self@ == other@),
    {
        match (self, other) {
            (GameDistribution::Unknown, GameDistribution::Unknown) => true,
            (GameDistribution::Steam(a), GameDistribution::Steam(b)) => a == b,
            (GameDistribution::DLSite(a), GameDistribution::DLSite(b)) => a == b,
            (GameDistribution::Other(a), GameDistribution::Other(b)) => a == b,
            _ => false,
        }
    }
}

impl vstd::std_specs::cmp::PartialEqSpecImpl for GameDistribution {
    open spec fn obeys_eq_spec() -> bool {
        true
    }

    open spec fn eq_spec(&self, other: &Self) -> bool {
        self@ == other@
    }
}

impl PartialEq for GameData {
    fn eq(&self, other: &Self) -> (r: bool)
        ensures
            r == (self@ == other@),
    {
        let r = self.version == other.version && self.game_type == other.game_type
            && crate::text::opt_string_eq(&self.developer, &other.developer)
            && crate::text::opt_string_eq(&self.publisher, &other.publisher)
            && platforms_eq(&self.sys_platform, &other.sys_platform)
            && self.distribution == other.distribution;
        proof {
            if r {
                assert(self@ =~= other@);
            }
        }
        r
    }
}

impl vstd::std_specs::cmp::PartialEqSpecImpl for GameData {
    open spec fn obeys_eq_spec() -> bool {
        true
    }

    open spec fn eq_spec(&self, other: &Self) -> bool {
        self@ == other@
    }
}

impl PartialEq for ContentInfo {
    fn eq(&self, other: &Self) -> (r: bool)
        ensures
            r == (self@ == other@),
    {
        match (self, other) {
            (ContentInfo::Undefined, ContentInfo::Undefined) => true,
            (ContentInfo::Game(a), ContentInfo::Game(b)) => a == b,
            _ => false,
        }
    }
}

impl vstd::std_specs::cmp::PartialEqSpecImpl for ContentInfo {
    open spec fn obeys_eq_spec() -> bool {
        true
    }

    open spec fn eq_spec(&self, other: &Self) -> bool {
        self@ == other@
    }
}

} // verus!
