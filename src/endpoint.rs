//! The endpoint registry: the fixed, ordered endpoint lists of each network.
use vstd::prelude::*;
use vstd::string::StringExecFns;

verus! {

/// A named network location exposing the health-check method.
#[derive(Debug)]
pub struct Endpoint {
    /// Display label; compared only when ranking failed probes.
    pub name: String,
    /// Base origin, without a trailing path.
    pub url: String,
}

impl View for Endpoint {
    type V = (Seq<char>, Seq<char>);

    open spec fn view(&self) -> (Seq<char>, Seq<char>) {
        (self.name@, self.url@)
    }
}

/// The views of a sequence of endpoints.
pub open spec fn endpoint_views(s: Seq<Endpoint>) -> Seq<(Seq<char>, Seq<char>)> {
    s.map_values(|e: Endpoint| e@)
}

/// The mainnet profile, as (name, url) pairs in registry order.
pub open spec fn mainnet_profile() -> Seq<(Seq<char>, Seq<char>)> {
    seq![
        ("🇯🇵 Tokyo"@, "https://tokyo.mainnet.block-engine.jito.wtf"@),
        ("🌐 Mainnet"@, "https://mainnet.block-engine.jito.wtf"@),
        ("🇳🇱 Amsterdam"@, "https://amsterdam.mainnet.block-engine.jito.wtf"@),
        ("🇩🇪 Frankfurt"@, "https://frankfurt.mainnet.block-engine.jito.wtf"@),
        ("🇬🇧 London"@, "https://london.mainnet.block-engine.jito.wtf"@),
        ("🇺🇸 New York"@, "https://ny.mainnet.block-engine.jito.wtf"@),
        ("🇺🇸 Salt Lake City"@, "https://slc.mainnet.block-engine.jito.wtf"@),
        ("🇸🇬 Singapore"@, "https://singapore.mainnet.block-engine.jito.wtf"@),
    ]
}

/// The testnet profile, as (name, url) pairs in registry order.
pub open spec fn testnet_profile() -> Seq<(Seq<char>, Seq<char>)> {
    seq![
        ("🌍 Testnet"@, "https://testnet.block-engine.jito.wtf"@),
        ("🇺🇸 Dallas (Testnet)"@, "https://dallas.testnet.block-engine.jito.wtf"@),
        ("🇺🇸 New York (Testnet)"@, "https://ny.testnet.block-engine.jito.wtf"@),
    ]
}

/// The profile selected by the `testnet` flag.
pub open spec fn profile(testnet: bool) -> Seq<(Seq<char>, Seq<char>)> {
    if testnet {
        testnet_profile()
    } else {
        mainnet_profile()
    }
}

fn endpoint(name: &str, url: &str) -> (r: Endpoint)
    ensures
        r@ == (name@, url@),
{
    Endpoint { name: String::from_str(name), url: String::from_str(url) }
}

/// The mainnet endpoints, in registry order.
pub fn get_mainnet_endpoints() -> (r: Vec<Endpoint>)
    ensures
        endpoint_views(r@) == mainnet_profile(),
{
    let r = vec![
        endpoint("🇯🇵 Tokyo", "https://tokyo.mainnet.block-engine.jito.wtf"),
        endpoint("🌐 Mainnet", "https://mainnet.block-engine.jito.wtf"),
        endpoint("🇳🇱 Amsterdam", "https://amsterdam.mainnet.block-engine.jito.wtf"),
        endpoint("🇩🇪 Frankfurt", "https://frankfurt.mainnet.block-engine.jito.wtf"),
        endpoint("🇬🇧 London", "https://london.mainnet.block-engine.jito.wtf"),
        endpoint("🇺🇸 New York", "https://ny.mainnet.block-engine.jito.wtf"),
        endpoint("🇺🇸 Salt Lake City", "https://slc.mainnet.block-engine.jito.wtf"),
        endpoint("🇸🇬 Singapore", "https://singapore.mainnet.block-engine.jito.wtf"),
    ];
    assert(endpoint_views(r@) =~= mainnet_profile());
    r
}

/// The testnet endpoints, in registry order.
pub fn get_testnet_endpoints() -> (r: Vec<Endpoint>)
    ensures
        endpoint_views(r@) == testnet_profile(),
{
    let r = vec![
        endpoint("🌍 Testnet", "https://testnet.block-engine.jito.wtf"),
        endpoint("🇺🇸 Dallas (Testnet)", "https://dallas.testnet.block-engine.jito.wtf"),
        endpoint("🇺🇸 New York (Testnet)", "https://ny.testnet.block-engine.jito.wtf"),
    ];
    assert(endpoint_views(r@) =~= testnet_profile());
    r
}

/// The endpoints of the selected network: testnet when `testnet` holds,
/// mainnet otherwise.
pub fn endpoints_for(testnet: bool) -> (r: Vec<Endpoint>)
    ensures
        endpoint_views(r@) == profile(testnet),
{
    if testnet {
        get_testnet_endpoints()
    } else {
        get_mainnet_endpoints()
    }
}

/// The mainnet profile has eight endpoints and the testnet profile three;
/// both are fixed, so every call yields the same list in the same order.
pub proof fn lemma_profile_sizes()
    ensures
        mainnet_profile().len() == 8,
        testnet_profile().len() == 3,
        profile(false) == mainnet_profile(),
        profile(true) == testnet_profile(),
{
}

/// Two selections of the same network yield the same endpoints in the same
/// order.
pub proof fn lemma_profile_stable(a: Seq<Endpoint>, b: Seq<Endpoint>, testnet: bool)
    requires
        endpoint_views(a) == profile(testnet),
        endpoint_views(b) == profile(testnet),
    ensures
        a.len() == b.len(),
        forall|i: int| 0 <= i < a.len() ==> #[trigger] a[i]@ == b[i]@,
{
    assert(endpoint_views(a).len() == a.len());
    assert(endpoint_views(b).len() == b.len());
    assert forall|i: int| 0 <= i < a.len() implies #[trigger] a[i]@ == b[i]@ by {
        assert(endpoint_views(a)[i] == a[i]@);
        assert(endpoint_views(b)[i] == b[i]@);
    }
}

/// Selecting the testnet reaches no mainnet endpoint: no testnet url is a
/// mainnet url.
pub proof fn lemma_testnet_excludes_mainnet(i: int, j: int)
    requires
        0 <= i < testnet_profile().len(),
        0 <= j < mainnet_profile().len(),
    ensures
        profile(true)[i].1 != mainnet_profile()[j].1,
{
    reveal_strlit("https://tokyo.mainnet.block-engine.jito.wtf");
    reveal_strlit("https://mainnet.block-engine.jito.wtf");
    reveal_strlit("https://amsterdam.mainnet.block-engine.jito.wtf");
    reveal_strlit("https://frankfurt.mainnet.block-engine.jito.wtf");
    reveal_strlit("https://london.mainnet.block-engine.jito.wtf");
    reveal_strlit("https://ny.mainnet.block-engine.jito.wtf");
    reveal_strlit("https://slc.mainnet.block-engine.jito.wtf");
    reveal_strlit("https://singapore.mainnet.block-engine.jito.wtf");
    reveal_strlit("https://testnet.block-engine.jito.wtf");
    reveal_strlit("https://dallas.testnet.block-engine.jito.wtf");
    reveal_strlit("https://ny.testnet.block-engine.jito.wtf");
    if i == 0 && j == 0 {
        assert(testnet_profile()[0].1[9] != mainnet_profile()[0].1[9]);
    }
    if i == 0 && j == 1 {
        assert(testnet_profile()[0].1[8] != mainnet_profile()[1].1[8]);
    }
    if i == 0 && j == 2 {
        assert(testnet_profile()[0].1[8] != mainnet_profile()[2].1[8]);
    }
    if i == 0 && j == 3 {
        assert(testnet_profile()[0].1[8] != mainnet_profile()[3].1[8]);
    }
    if i == 0 && j == 4 {
        assert(testnet_profile()[0].1[8] != mainnet_profile()[4].1[8]);
    }
    if i == 0 && j == 5 {
        assert(testnet_profile()[0].1[8] != mainnet_profile()[5].1[8]);
    }
    if i == 0 && j == 6 {
        assert(testnet_profile()[0].1[8] != mainnet_profile()[6].1[8]);
    }
    if i == 0 && j == 7 {
        assert(testnet_profile()[0].1[8] != mainnet_profile()[7].1[8]);
    }
    if i == 1 && j == 0 {
        assert(testnet_profile()[1].1[8] != mainnet_profile()[0].1[8]);
    }
    if i == 1 && j == 1 {
        assert(testnet_profile()[1].1[8] != mainnet_profile()[1].1[8]);
    }
    if i == 1 && j == 2 {
        assert(testnet_profile()[1].1[8] != mainnet_profile()[2].1[8]);
    }
    if i == 1 && j == 3 {
        assert(testnet_profile()[1].1[8] != mainnet_profile()[3].1[8]);
    }
    if i == 1 && j == 4 {
        assert(testnet_profile()[1].1[8] != mainnet_profile()[4].1[8]);
    }
    if i == 1 && j == 5 {
        assert(testnet_profile()[1].1[8] != mainnet_profile()[5].1[8]);
    }
    if i == 1 && j == 6 {
        assert(testnet_profile()[1].1[8] != mainnet_profile()[6].1[8]);
    }
    if i == 1 && j == 7 {
        assert(testnet_profile()[1].1[8] != mainnet_profile()[7].1[8]);
    }
    if i == 2 && j == 0 {
        assert(testnet_profile()[2].1[8] != mainnet_profile()[0].1[8]);
    }
    if i == 2 && j == 1 {
        assert(testnet_profile()[2].1[8] != mainnet_profile()[1].1[8]);
    }
    if i == 2 && j == 2 {
        assert(testnet_profile()[2].1[8] != mainnet_profile()[2].1[8]);
    }
    if i == 2 && j == 3 {
        assert(testnet_profile()[2].1[8] != mainnet_profile()[3].1[8]);
    }
    if i == 2 && j == 4 {
        assert(testnet_profile()[2].1[8] != mainnet_profile()[4].1[8]);
    }
    if i == 2 && j == 5 {
        assert(testnet_profile()[2].1[11] != mainnet_profile()[5].1[11]);
    }
    if i == 2 && j == 6 {
        assert(testnet_profile()[2].1[8] != mainnet_profile()[6].1[8]);
    }
    if i == 2 && j == 7 {
        assert(testnet_profile()[2].1[8] != mainnet_profile()[7].1[8]);
    }
}

} // verus!
