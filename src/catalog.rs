//! The game catalog: metadata of each game keyed by its application id.

use vstd::prelude::*;

verus! {

/// A minimum-requirements line of a game: a label and its text.
pub type Requirement = (String, String);

/// Store metadata of one application.
#[derive(Debug, Clone, PartialEq, Eq)]
pub struct AppData {
    pub app_type: String,
    pub name: String,
    pub is_free: bool,
    pub header_image: String,
    pub pc_requirements: Vec<Requirement>,
}

/// What the catalog knows of one application id.
#[derive(Debug, Clone, PartialEq, Eq)]
pub struct Game {
    pub appid: u32,
    pub details: AppData,
    pub installed: bool,
    pub path: String,
}

/// The store's answer for one application id: its metadata when the lookup
/// succeeded.
#[derive(Debug, Clone, PartialEq, Eq)]
pub struct GameDetails {
    success: bool,
    data: Option<AppData>,
}

/// The catalog: games in the order in which they were stored.
#[derive(Debug, Clone, PartialEq, Eq)]
pub struct GameMap(pub Vec<Game>);

/// `AppData` as mathematical values.
pub struct AppDataView {
    pub app_type: Seq<char>,
    pub name: Seq<char>,
    pub is_free: bool,
    pub header_image: Seq<char>,
    pub requirements: Seq<(Seq<char>, Seq<char>)>,
}

/// `Game` as mathematical values.
pub struct GameView {
    pub appid: u32,
    pub installed: bool,
    pub details: AppDataView,
    pub path: Seq<char>,
}

pub open spec fn requirements_view(r: Seq<Requirement>) -> Seq<(Seq<char>, Seq<char>)> {
    r.map_values(|p: Requirement| (p.0@, p.1@))
}

impl View for AppData {
    type V = AppDataView;

    open spec fn view(&self) -> AppDataView {
        AppDataView {
            app_type: self.app_type@,
            name: self.name@,
            is_free: self.is_free,
            header_image: self.header_image@,
            requirements: requirements_view(self.pc_requirements@),
        }
    }
}

impl View for Game {
    type V = GameView;

    open spec fn view(&self) -> GameView {
        GameView {
            appid: self.appid,
            installed: self.installed,
            details: self.details@,
            path: self.path@,
        }
    }
}

pub open spec fn games_view(games: Seq<Game>) -> Seq<GameView> {
    games.map_values(|g: Game| g@)
}

impl View for GameMap {
    type V = Seq<GameView>;

    open spec fn view(&self) -> Seq<GameView> {
        games_view(self.0@)
    }
}

/// Metadata with every string empty, no requirements and `is_free` false.
pub open spec fn empty_app_data() -> AppDataView {
    AppDataView {
        app_type: Seq::empty(),
        name: Seq::empty(),
        is_free: false,
        header_image: Seq::empty(),
        requirements: Seq::empty(),
    }
}

impl AppData {
    pub fn empty() -> (r: AppData)
        ensures
            r@ == empty_app_data(),
    {
        let r = AppData {
            app_type: String::new(),
            name: String::new(),
            is_free: false,
            header_image: String::new(),
            pc_requirements: Vec::new(),
        };
        assert(requirements_view(r.pc_requirements@) =~= Seq::empty());
        r
    }
}

impl Default for AppData {
    fn default() -> (r: AppData)
        ensures
            r@ == empty_app_data(),
    {
        AppData::empty()
    }
}

impl Game {
    /// A game with application id 0, empty metadata, not installed, no path.
    pub fn new() -> (r: Game)
        ensures
            r@ == (GameView {
                appid: 0,
                installed: false,
                details: empty_app_data(),
                path: Seq::empty(),
            }),
    {
        Game { appid: 0, details: AppData::empty(), installed: false, path: String::new() }
    }
}

impl Default for Game {
    fn default() -> (r: Game)
        ensures
            r@ == (GameView {
                appid: 0,
                installed: false,
                details: empty_app_data(),
                path: Seq::empty(),
            }),
    {
        Game::new()
    }
}

impl GameDetails {
    pub fn new(success: bool, data: Option<AppData>) -> (r: GameDetails)
        ensures
            r.success() == success,
            r.data() == data,
    {
        GameDetails { success, data }
    }

    pub closed spec fn success(&self) -> bool {
        self.success
    }

    pub closed spec fn data(&self) -> Option<AppData> {
        self.data
    }

    pub fn is_success(&self) -> (r: bool)
        ensures
            r == self.success(),
    {
        self.success
    }

    pub fn app_data(&self) -> (r: Option<&AppData>)
        ensures
            r is Some <==> self.data() is Some,
            r matches Some(d) ==> self.data() == Some(*d),
    {
        match &self.data {
            Some(d) => Some(d),
            None => None,
        }
    }

    /// The metadata of the answer, or empty metadata where it holds none.
    pub fn into_app_data(self) -> (r: AppData)
        ensures
            self.data() matches Some(d) ==> r == d,
            self.data() is None ==> r@ == empty_app_data(),
    {
        match self.data {
            Some(d) => d,
            None => AppData::empty(),
        }
    }
}

impl GameMap {
    pub fn new() -> (r: GameMap)
        ensures
            r@ == Seq::<GameView>::empty(),
    {
        let r = GameMap(Vec::new());
        assert(r@ =~= Seq::<GameView>::empty());
        r
    }

    pub fn len(&self) -> (r: usize)
        ensures
            r == self@.len(),
    {
        self.0.len()
    }

    pub open spec fn has_appid(&self, appid: u32) -> bool {
        exists|i: int| 0 <= i < self.0@.len() && #[trigger] self.0@[i].appid == appid
    }

    /// The game stored last under `appid`, so that a later record of an id
    /// takes the place of an earlier one.
    pub fn get(&self, appid: u32) -> (r: Option<&Game>)
        ensures
            r is None <==> !self.has_appid(appid),
            r matches Some(g) ==> exists|i: int|
                0 <= i < self.0@.len() && self.0@[i] == *g && g.appid == appid && forall|j: int|
                    i < j < self.0@.len() ==> #[trigger] self.0@[j].appid != appid,
    {
        let mut k: usize = self.0.len();
        while k > 0
            invariant
                k <= self.0@.len(),
                forall|j: int| k <= j < self.0@.len() ==> #[trigger] self.0@[j].appid != appid,
            decreases k,
        {
            k = k - 1;
            if self.0[k].appid == appid {
                return Some(&self.0[k]);
            }
        }
        None
    }
}

} // verus!
