//! The addresses of the service's pages, all under its base address.

use vstd::prelude::*;

verus! {

pub const LOGIN_PATH: &'static str = "/login";

pub const MAIN_MENU_PATH: &'static str = "/faces/MainMenuPage.xhtml";

pub const PLANNING_CHOICE_PATH: &'static str = "/faces/ChoixPlanning.xhtml";

pub const PLANNING_PATH: &'static str = "/faces/Planning.xhtml";

pub struct PagesView {
    pub service: Seq<char>,
    pub login: Seq<char>,
    pub main_menu: Seq<char>,
    pub planning_choice: Seq<char>,
    pub planning: Seq<char>,
}

/// The addresses of the pages that the session requests.
pub struct Pages {
    service_url: String,
    login_url: String,
    main_menu_url: String,
    planning_choice_url: String,
    planning_url: String,
}

impl View for Pages {
    type V = PagesView;

    closed spec fn view(&self) -> PagesView {
        PagesView {
            service: self.service_url@,
            login: self.login_url@,
            main_menu: self.main_menu_url@,
            planning_choice: self.planning_choice_url@,
            planning: self.planning_url@,
        }
    }
}

fn joined(base: &str, path: &str) -> (r: String)
    ensures
        r@ == base@ + path@,
{
    let mut r = String::from_str(base);
    r.append(path);
    r
}

impl Pages {
    /// The pages under `service_url`.
    pub fn new(service_url: &str) -> (r: Pages)
        ensures
            r@ == (PagesView {
                service: service_url@,
                login: service_url@ + LOGIN_PATH@,
                main_menu: service_url@ + MAIN_MENU_PATH@,
                planning_choice: service_url@ + PLANNING_CHOICE_PATH@,
                planning: service_url@ + PLANNING_PATH@,
            }),
    {
        Pages {
            service_url: String::from_str(service_url),
            login_url: joined(service_url, LOGIN_PATH),
            main_menu_url: joined(service_url, MAIN_MENU_PATH),
            planning_choice_url: joined(service_url, PLANNING_CHOICE_PATH),
            planning_url: joined(service_url, PLANNING_PATH),
        }
    }

    pub fn service_url(&self) -> (r: &str)
        ensures
            r@ == self@.service,
    {
        self.service_url.as_str()
    }

    pub fn login_url(&self) -> (r: &str)
        ensures
            r@ == self@.login,
    {
        self.login_url.as_str()
    }

    pub fn main_menu_url(&self) -> (r: &str)
        ensures
            r@ == self@.main_menu,
    {
        self.main_menu_url.as_str()
    }

    pub fn planning_choice_url(&self) -> (r: &str)
        ensures
            r@ == self@.planning_choice,
    {
        self.planning_choice_url.as_str()
    }

    pub fn planning_url(&self) -> (r: &str)
        ensures
            r@ == self@.planning,
    {
        self.planning_url.as_str()
    }
}

} // verus!
