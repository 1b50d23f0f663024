//! The tabs of the explorer: their order and labels, the Rust example shown
//! on each, and when the live views are due for a refresh.
use vstd::prelude::*;

verus! {

/// The tabs of the explorer.
#[derive(Clone, Copy, Debug, PartialEq, Eq, Structural)]
pub enum ActiveTab {
    Primitives,
    Ranges,
    Distributions,
    Sequences,
    Engines,
    System,
}

pub const RAND_COOKBOOK_EXAMPLE: &'static str = r#"// import commonly used items from the prelude:
use rand::prelude::*;

fn main() {
    // We can use random() immediately. It can produce values of many common types:
    let x: u8 = rand::random();
    println!("{}", x);

    if rand::random() { // generates a boolean
        println!("Heads!");
    }

    // If we want to be a bit more explicit (and a little more efficient) we can
    // make a handle to the thread-local generator:
    let mut rng = rand::rng();
    if rng.random() { // random bool
        let x: f64 = rng.random(); // random number in range [0, 1)
        let y = rng.random_range(-10.0..10.0);
        println!("x is: {}", x);
        println!("y is: {}", y);
    }

    println!("Dice roll: {}", rng.random_range(1..=6));
    println!("Number from 0 to 9: {}", rng.random_range(0..10));

    // Sometimes it's useful to use distributions directly:
    let distr = rand::distr::Uniform::new_inclusive(1, 100).unwrap();
    let mut nums = [0i32; 3];
    for x in &mut nums {
        *x = rng.sample(distr);
    }
    println!("Some numbers: {:?}", nums);

    // We can also interact with iterators and slices:
    let arrows_iter = "➡⬈⬆⬉⬅⬋⬇⬊".chars();
    println!("Lets go in this direction: {}", arrows_iter.choose(&mut rng).unwrap());
    let mut nums = [1, 2, 3, 4, 5];
    nums.shuffle(&mut rng);
    println!("I shuffled my {:?}", nums);
}"#;

pub const RANGE_EXAMPLE: &'static str = r#"let mut rng = rand::rng();
let value = rng.random_range(-10.0..10.0);
let inclusive = rng.random_range(1..=6);
println!("value: {value}, dice: {inclusive}");"#;

pub const DISTRIBUTION_EXAMPLE: &'static str = r#"use rand::distr::{Distribution, Uniform};
use rand_distr::Normal;

let mut rng = rand::rng();
let uniform = Uniform::new(0.0, 1.0).unwrap();
let normal = Normal::new(0.0, 1.0).unwrap();
let sample = uniform.sample(&mut rng);
let gaussian = normal.sample(&mut rng);
println!("{sample} {gaussian}");"#;

pub const SEQUENCE_EXAMPLE: &'static str = r#"use rand::seq::{IndexedRandom, SliceRandom};

let mut rng = rand::rng();
let mut values = ["A", "B", "C", "D"];
let chosen = values.choose(&mut rng);
let many = values.sample(&mut rng, 2);
values.shuffle(&mut rng);
println!("{chosen:?} {many:?} {values:?}");"#;

pub const ENGINE_EXAMPLE: &'static str = r#"use rand::{Rng, SeedableRng};
use rand_chacha::ChaCha20Rng;

let seed = 42;
let mut first = ChaCha20Rng::seed_from_u64(seed);
let mut second = ChaCha20Rng::seed_from_u64(seed);
assert_eq!(first.random::<u64>(), second.random::<u64>());"#;

pub const SYSTEM_EXAMPLE: &'static str = r#"println!("package: {}", env!("CARGO_PKG_VERSION"));
println!("target: {}", std::env::consts::ARCH);
println!("renderer: Glow / OpenGL");"#;

/// The tabs in the order their buttons are laid out.
pub open spec fn tab_order() -> Seq<ActiveTab> {
    seq![
        ActiveTab::Primitives,
        ActiveTab::Ranges,
        ActiveTab::Distributions,
        ActiveTab::Sequences,
        ActiveTab::Engines,
        ActiveTab::System,
    ]
}

/// The label on a tab's button.
pub open spec fn tab_label(tab: ActiveTab) -> Seq<char> {
    match tab {
        ActiveTab::Primitives => "Primitives"@,
        ActiveTab::Ranges => "Ranges"@,
        ActiveTab::Distributions => "Distributions"@,
        ActiveTab::Sequences => "Sequences"@,
        ActiveTab::Engines => "RNG Engines"@,
        ActiveTab::System => "System"@,
    }
}

/// The title and source of the Rust example shown on a tab.
pub open spec fn tab_example(tab: ActiveTab) -> (Seq<char>, Seq<char>) {
    match tab {
        ActiveTab::Primitives => ("Primitive generation"@, RAND_COOKBOOK_EXAMPLE@),
        ActiveTab::Ranges => ("Range generation"@, RANGE_EXAMPLE@),
        ActiveTab::Distributions => ("Distribution sampling"@, DISTRIBUTION_EXAMPLE@),
        ActiveTab::Sequences => ("Sequence operations"@, SEQUENCE_EXAMPLE@),
        ActiveTab::Engines => ("Deterministic RNG"@, ENGINE_EXAMPLE@),
        ActiveTab::System => ("Build information"@, SYSTEM_EXAMPLE@),
    }
}

/// Every tab has a button, and none has two.
pub proof fn lemma_tab_order_complete(tab: ActiveTab)
    ensures
        tab_order().contains(tab),
        tab_order().no_duplicates(),
{
    let s = tab_order();
    match tab {
        ActiveTab::Primitives => assert(s[0] == tab),
        ActiveTab::Ranges => assert(s[1] == tab),
        ActiveTab::Distributions => assert(s[2] == tab),
        ActiveTab::Sequences => assert(s[3] == tab),
        ActiveTab::Engines => assert(s[4] == tab),
        ActiveTab::System => assert(s[5] == tab),
    }
}

impl ActiveTab {
    /// All tabs, in button order.
    pub fn all() -> (tabs: [ActiveTab; 6])
        ensures
            tabs@ == tab_order(),
    {
        [
            ActiveTab::Primitives,
            ActiveTab::Ranges,
            ActiveTab::Distributions,
            ActiveTab::Sequences,
            ActiveTab::Engines,
            ActiveTab::System,
        ]
    }

    /// The label on this tab's button.
    pub fn label(self) -> (name: &'static str)
        ensures
            name@ == tab_label(self),
    {
        match self {
            ActiveTab::Primitives => "Primitives",
            ActiveTab::Ranges => "Ranges",
            ActiveTab::Distributions => "Distributions",
            ActiveTab::Sequences => "Sequences",
            ActiveTab::Engines => "RNG Engines",
            ActiveTab::System => "System",
        }
    }
}

/// The title and source of the Rust example shown on a tab.
pub fn code_example(active_tab: ActiveTab) -> (example: (&'static str, &'static str))
    ensures
        (example.0@, example.1@) == tab_example(active_tab),
{
    match active_tab {
        ActiveTab::Primitives => ("Primitive generation", RAND_COOKBOOK_EXAMPLE),
        ActiveTab::Ranges => ("Range generation", RANGE_EXAMPLE),
        ActiveTab::Distributions => ("Distribution sampling", DISTRIBUTION_EXAMPLE),
        ActiveTab::Sequences => ("Sequence operations", SEQUENCE_EXAMPLE),
        ActiveTab::Engines => ("Deterministic RNG", ENGINE_EXAMPLE),
        ActiveTab::System => ("Build information", SYSTEM_EXAMPLE),
    }
}

/// Which live views are due for a refresh on this frame.
pub struct LiveRefresh {
    pub primitives: bool,
    pub ranges: bool,
}

/// Which live views are due for a refresh: a view is due when its tab is
/// shown, its live mode is on, and at least its interval has passed since its
/// last refresh.
pub fn live_refresh_due(
    tab: ActiveTab,
    primitive_stream_enabled: bool,
    primitive_stream_ms: u64,
    since_primitive_ms: u128,
    range_live_enabled: bool,
    range_stream_ms: u64,
    since_range_ms: u128,
) -> (due: LiveRefresh)
    ensures
        due.primitives == (tab == ActiveTab::Primitives && primitive_stream_enabled
            && since_primitive_ms >= primitive_stream_ms),
        due.ranges == (tab == ActiveTab::Ranges && range_live_enabled && since_range_ms
            >= range_stream_ms),
{
    let primitives = tab == ActiveTab::Primitives && primitive_stream_enabled
        && since_primitive_ms >= primitive_stream_ms as u128;
    let ranges = tab == ActiveTab::Ranges && range_live_enabled && since_range_ms
        >= range_stream_ms as u128;
    LiveRefresh { primitives, ranges }
}

} // verus!
