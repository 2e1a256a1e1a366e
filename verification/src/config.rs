//! The settings the engine consumes: the data root (holding the store
//! file, the archive directory and the image directory) and the optional
//! deployment root. Loading and saving the settings file, and creating the
//! directories, is the caller's work; the accessors and the field-update
//! decision are here.
use vstd::prelude::*;

use crate::dl_site::Language;
use crate::error::{CatalogError, CatalogErrorView};
use crate::text::{clone_opt_string, join_path, spec_join_path, str_eq};

verus! {

/// The read-only settings object of the catalog's earlier configuration
/// surface: a data root and an optional deployment root.
#[derive(Debug)]
pub struct InternalConfig {
    root_data: String,
    root_deploy: Option<String>,
}

/// The ghost value of an `InternalConfig`.
pub ghost struct InternalConfigView {
    pub root_data: Seq<char>,
    pub root_deploy: Option<Seq<char>>,
}

impl View for InternalConfig {
    type V = InternalConfigView;

    closed spec fn view(&self) -> InternalConfigView {
        InternalConfigView {
            root_data: self.root_data@,
            root_deploy: self.root_deploy.deep_view(),
        }
    }
}

impl InternalConfig {
    /// Settings with the given roots.
    pub fn new(root_data: String, root_deploy: Option<String>) -> (r: Self)
        ensures
            r@.root_data == root_data@,
            r@.root_deploy == root_deploy.deep_view(),
    {
        InternalConfig { root_data, root_deploy }
    }

    /// The data root: where the store file lives.
    pub fn root_data(&self) -> (r: &String)
        ensures
            r@ == self@.root_data,
    {
        &self.root_data
    }

    /// The deployment root, if one is configured.
    pub fn root_deploy(&self) -> (r: Option<&String>)
        ensures
            match r {
                Some(p) => self@.root_deploy == Some(p@),
                None => self@.root_deploy is None,
            },
    {
        self.root_deploy.as_ref()
    }

    /// The archive directory under the data root.
    pub fn dir_archive(&self) -> (r: String)
        ensures
            r@ == spec_join_path(self@.root_data, "archive"@),
    {
        join_path(self.root_data.as_str(), "archive")
    }

    /// The image directory under the data root.
    pub fn dir_image(&self) -> (r: String)
        ensures
            r@ == spec_join_path(self@.root_data, "image"@),
    {
        join_path(self.root_data.as_str(), "image")
    }
}

/// Applies a settings field update by name:
/// - `root_data` takes a new non-empty value (an absent or empty value is
///   refused like an unknown field, so the data root can never be unset);
/// - `root_deploy` takes the value as given, with an absent or empty value
///   clearing the deployment root;
/// - any other name is the validation error.
/// The caller persists the updated settings.
pub fn update_config_field(config: &mut InternalConfig, name: &str, value: Option<String>) -> (r:
    Result<(), CatalogError>)
    ensures
        match r {
            Ok(()) => {
                ||| (name@ == "root_data"@ && (value.deep_view() matches Some(v) && v.len() > 0
                    && final(config)@ == (InternalConfigView {
                    root_data: v,
                    ..old(config)@
                })))
                ||| (name@ == "root_deploy"@ && final(config)@ == (InternalConfigView {
                    root_deploy: match value.deep_view() {
                        Some(v) => if v.len() > 0 {
                            Some(v)
                        } else {
                            None
                        },
                        None => None,
                    },
                    ..old(config)@
                }))
            },
            Err(e) => {
                &&& final(config)@ == old(config)@
                &&& e@ == (CatalogErrorView::ValidationError { field: name@ })
                &&& !(name@ == "root_deploy"@)
                &&& name@ == "root_data"@ ==> match value.deep_view() {
                    Some(v) => v.len() == 0,
                    None => true,
                }
            },
        },
{
    let nonempty = match &value {
        Some(v) => !v.as_str().is_empty(),
        None => false,
    };
    if str_eq(name, "root_data") && nonempty {
        let v = match value {
            Some(v) => v,
            None => unreached(),
        };
        config.root_data = v;
        Ok(())
    } else if str_eq(name, "root_deploy") {
        config.root_deploy = match value {
            Some(v) => {
                if v.as_str().is_empty() {
                    None
                } else {
                    Some(v)
                }
            },
            None => None,
        };
        Ok(())
    } else {
        Err(CatalogError::ValidationError { field: String::from_str(name) })
    }
}

/// The application's configuration surface: a display language, the data
/// root path, and the optional deployment root path.
#[derive(Debug)]
pub struct AppConfig {
    lang: Language,
    path_data: String,
    path_deploy: Option<String>,
}

/// The ghost value of an `AppConfig`.
pub ghost struct AppConfigView {
    pub lang: Language,
    pub path_data: Seq<char>,
    pub path_deploy: Option<Seq<char>>,
}

impl View for AppConfig {
    type V = AppConfigView;

    closed spec fn view(&self) -> AppConfigView {
        AppConfigView {
            lang: self.lang,
            path_data: self.path_data@,
            path_deploy: self.path_deploy.deep_view(),
        }
    }
}

impl Default for AppConfig {
    fn default() -> (r: Self)
        ensures
            r@.lang == Language::EnUs,
            r@.path_data == "."@,
            r@.path_deploy is None,
    {
        AppConfig { lang: Language::EnUs, path_data: String::from_str("."), path_deploy: None }
    }
}

impl AppConfig {
    /// Configuration with the given fields.
    pub fn new(lang: Language, path_data: String, path_deploy: Option<String>) -> (r: Self)
        ensures
            r@.lang == lang,
            r@.path_data == path_data@,
            r@.path_deploy == path_deploy.deep_view(),
    {
        AppConfig { lang, path_data, path_deploy }
    }

    /// The configured display language.
    pub fn lang(&self) -> (r: Language)
        ensures
            r == self@.lang,
    {
        self.lang
    }

    /// The data root path.
    pub fn path_data(&self) -> (r: &String)
        ensures
            r@ == self@.path_data,
    {
        &self.path_data
    }

    /// The deployment root path, if one is configured.
    pub fn path_deploy(&self) -> (r: Option<&String>)
        ensures
            match r {
                Some(p) => self@.path_deploy == Some(p@),
                None => self@.path_deploy is None,
            },
    {
        self.path_deploy.as_ref()
    }

    /// The archive directory under the data root.
    pub fn dir_archive(&self) -> (r: String)
        ensures
            r@ == spec_join_path(self@.path_data, "archive"@),
    {
        join_path(self.path_data.as_str(), "archive")
    }

    /// The image directory under the data root.
    pub fn dir_image(&self) -> (r: String)
        ensures
            r@ == spec_join_path(self@.path_data, "image"@),
    {
        join_path(self.path_data.as_str(), "image")
    }

    /// A field-by-field copy of this configuration, equal to it.
    pub fn clone_config(&self) -> (r: Self)
        ensures
            r@ == self@,
    {
        AppConfig {
            lang: self.lang,
            path_data: self.path_data.clone(),
            path_deploy: clone_opt_string(&self.path_deploy),
        }
    }
}

/// The configuration holder handed to every operation; its lock, when the
/// surrounding process shares it across threads, lives with that process.
pub struct ConfigState {
    config: AppConfig,
}

impl View for ConfigState {
    type V = AppConfigView;

    closed spec fn view(&self) -> AppConfigView {
        self.config@
    }
}

impl ConfigState {
    /// A holder for the given configuration.
    pub fn new(config: AppConfig) -> (r: Self)
        ensures
            r@ == config@,
    {
        ConfigState { config }
    }

    /// A snapshot of the configuration.
    pub fn get(&self) -> (r: AppConfig)
        ensures
            r@ == self@,
    {
        self.config.clone_config()
    }
}

/// The application's root path when no configuration names one.
pub fn get_app_root_path() -> (r: &'static str)
    ensures
        r@ == "."@,
{
    "."
}

} // verus!
