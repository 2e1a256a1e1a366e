//! Types describing the DLSite storefront: its content categories, the id
//! prefixes they use, and the product-page URL scheme. The catalog only
//! stores these identifiers; fetching the page itself is left to callers.
use vstd::prelude::*;

use crate::text::spec_join_path;

verus! {

/// Types of content available on the DLSite.
#[derive(Debug, Clone, Copy, PartialEq, Eq, Structural)]
pub enum DLContentType {
    /// All ages; games, voice / ASMR, manga / CG.
    Doujin,
    /// All ages; comics, webtoons, novels.
    Comics,
    /// All ages; PC games, voice dramas, music.
    PcGames,
    /// All ages; Android apps and games.
    SmartphoneGames,
    /// R18 counterpart of `Doujin`.
    DoujinR18,
    /// R18 counterpart of `Comics`.
    ComicsR18,
    /// R18 PC games and anime.
    HGames,
    /// R18 counterpart of `SmartphoneGames`.
    SmartphoneGamesR18,
}

/// The URL path segment for a content category.
pub open spec fn spec_name_url(c: DLContentType) -> Seq<char> {
    match c {
        DLContentType::Doujin => "home"@,
        DLContentType::Comics => "comic"@,
        DLContentType::PcGames => "soft"@,
        DLContentType::SmartphoneGames => "app"@,
        DLContentType::DoujinR18 => "maniax"@,
        DLContentType::ComicsR18 => "books"@,
        DLContentType::HGames => "pro"@,
        DLContentType::SmartphoneGamesR18 => "appx"@,
    }
}

/// The product id prefix for a content category.
pub open spec fn spec_name_prefix(c: DLContentType) -> Seq<char> {
    match c {
        DLContentType::Doujin
        | DLContentType::DoujinR18
        | DLContentType::SmartphoneGames
        | DLContentType::SmartphoneGamesR18 => "RJ"@,
        DLContentType::Comics | DLContentType::ComicsR18 => "BJ"@,
        DLContentType::PcGames | DLContentType::HGames => "VJ"@,
    }
}

/// A full product id: the category prefix followed by the bare id.
pub open spec fn spec_build_id(c: DLContentType, id: Seq<char>) -> Seq<char> {
    spec_name_prefix(c) + id
}

impl DLContentType {
    /// The URL path segment naming this category on the site.
    pub fn name_url(&self) -> (r: &'static str)
        ensures
            r@ == spec_name_url(*self),
    {
        match self {
            Self::Doujin => "home",
            Self::Comics => "comic",
            Self::PcGames => "soft",
            Self::SmartphoneGames => "app",
            Self::DoujinR18 => "maniax",
            Self::ComicsR18 => "books",
            Self::HGames => "pro",
            Self::SmartphoneGamesR18 => "appx",
        }
    }

    /// The id prefix the site uses for this category.
    pub fn name_prefix(&self) -> (r: &'static str)
        ensures
            r@ == spec_name_prefix(*self),
    {
        match self {
            Self::Doujin | Self::DoujinR18 | Self::SmartphoneGames | Self::SmartphoneGamesR18 => {
                "RJ"
            },
            Self::Comics | Self::ComicsR18 => "BJ",
            Self::PcGames | Self::HGames => "VJ",
        }
    }

    /// Prepends this category's prefix to a bare product id.
    pub fn build_id(&self, id: &str) -> (r: String)
        ensures
            r@ == spec_build_id(*self, id@),
    {
        let mut s = String::from_str(self.name_prefix());
        s.append(id);
        s
    }
}

/// The display languages the catalog understands.
#[derive(Debug, Clone, Copy, PartialEq, Eq, Structural)]
pub enum Language {
    EnUs,
    ZhCn,
    JaJp,
}

impl Default for Language {
    fn default() -> (r: Self)
        ensures
            r == Language::EnUs,
    {
        Language::EnUs
    }
}

/// The locale code the site expects for a language.
pub open spec fn spec_lang_code(l: Language) -> Seq<char> {
    match l {
        Language::EnUs => "en_US"@,
        Language::ZhCn => "zh_CN"@,
        Language::JaJp => "ja_JP"@,
    }
}

impl Language {
    /// The locale code used in product page URLs.
    pub fn dl_lang_code(&self) -> (r: &'static str)
        ensures
            r@ == spec_lang_code(*self),
    {
        match self {
            Self::EnUs => "en_US",
            Self::ZhCn => "zh_CN",
            Self::JaJp => "ja_JP",
        }
    }

    /// The label of the scenario credit row on a product page.
    pub fn dl_tag_scenario(&self) -> (r: &'static str)
        ensures
            self is EnUs ==> r@ == "Scenario"@,
    {
        match self {
            Self::EnUs => "Scenario",
            Self::ZhCn => "\u{5267}\u{60c5}",
            Self::JaJp => "\u{30b7}\u{30ca}\u{30ea}\u{30aa}",
        }
    }

    /// The label of the illustration credit row on a product page.
    pub fn dl_tag_illustration(&self) -> (r: &'static str)
        ensures
            self is EnUs ==> r@ == "Illustration"@,
    {
        match self {
            Self::EnUs => "Illustration",
            Self::ZhCn => "\u{63d2}\u{753b}",
            Self::JaJp => "\u{30a4}\u{30e9}\u{30b9}\u{30c8}",
        }
    }
}

/// The product page URL for a category, full id and language.
pub open spec fn spec_build_url(c: DLContentType, id: Seq<char>, l: Language) -> Seq<char> {
    "https://www.dlsite.com/"@ + spec_name_url(c) + "/work/=/product_id/"@ + id
        + ".html/?locale="@ + spec_lang_code(l)
}

/// Builds the product page URL for a full id.
pub fn build_url(content_type: &DLContentType, id: &str, lang: &Language) -> (r: String)
    ensures
        r@ == spec_build_url(*content_type, id@, *lang),
{
    let mut s = String::from_str("https://www.dlsite.com/");
    s.append(content_type.name_url());
    s.append("/work/=/product_id/");
    s.append(id);
    s.append(".html/?locale=");
    s.append(lang.dl_lang_code());
    proof {
        assert(s@ =~= spec_build_url(*content_type, id@, *lang));
    }
    s
}

/// The free-text metadata scraped from a product page. The catalog never
/// interprets these fields; it stores whatever mapping the caller chooses.
#[derive(Debug, Clone)]
pub struct DLFetchInfo {
    pub title: String,
    pub circle: String,
    pub scenario: Vec<String>,
    pub illustration: Vec<String>,
    pub category: Vec<String>,
    pub tags: Vec<String>,
    pub description: Vec<String>,
}

impl Default for DLFetchInfo {
    fn default() -> (r: Self)
        ensures
            r.title@.len() == 0,
            r.circle@.len() == 0,
            r.scenario@.len() == 0,
            r.illustration@.len() == 0,
            r.category@.len() == 0,
            r.tags@.len() == 0,
            r.description@.len() == 0,
    {
        DLFetchInfo {
            title: String::new(),
            circle: String::new(),
            scenario: Vec::new(),
            illustration: Vec::new(),
            category: Vec::new(),
            tags: Vec::new(),
            description: Vec::new(),
        }
    }
}

/// The argument of a deploy request: either the configured deployment root or
/// an explicit target directory.
#[derive(Debug, Clone)]
pub struct DeployArg {
    pub use_config_dir: bool,
    pub target_dir: Option<String>,
}

/// The argument of a product page fetch: the bare id and its category.
#[derive(Debug, Clone)]
pub struct DLFetchArg {
    pub id: String,
    pub content_type: DLContentType,
}

} // verus!
