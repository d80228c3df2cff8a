//! Text shown to the user for a location and a circuit path.
use vstd::prelude::*;
use crate::circuit::Circuit;

verus! {

/// Where an address is, as a geolocation service reported it.
pub struct GeoInfo {
    pub country_name: Option<String>,
    pub country_code: Option<String>,
    pub city: Option<String>,
    pub region: Option<String>,
}

/// The country: its name, else its code, else `Unknown`.
pub open spec fn country_text(geo: GeoInfo) -> Seq<char> {
    match geo.country_name {
        Some(n) => n@,
        None => match geo.country_code {
            Some(c) => c@,
            None => "Unknown"@,
        },
    }
}

pub open spec fn city_text(geo: GeoInfo) -> Seq<char> {
    match geo.city {
        Some(c) => c@,
        None => "Unknown"@,
    }
}

/// `city, country`.
pub fn format_location(geo: &GeoInfo) -> (r: String)
    ensures
        r@ == city_text(*geo) + ", "@ + country_text(*geo),
{
    let country: &str = match &geo.country_name {
        Some(n) => n.as_str(),
        None => match &geo.country_code {
            Some(c) => c.as_str(),
            None => "Unknown",
        },
    };
    let city: &str = match &geo.city {
        Some(c) => c.as_str(),
        None => "Unknown",
    };
    city.to_owned().concat(", ").concat(country)
}

/// The first `n` hops as `name [country]`, joined by arrows.
pub open spec fn path_text(nodes: Seq<(String, String)>, n: int) -> Seq<char>
    decreases n,
{
    if n <= 0 {
        seq![]
    } else {
        let sep: Seq<char> = if n > 1 {
            " \u{2192} "@
        } else {
            seq![]
        };
        path_text(nodes, n - 1) + sep + nodes[n - 1].0@ + " ["@ + nodes[n - 1].1@ + "]"@
    }
}

/// The hops of a circuit as `name [country]`, joined by arrows.
pub fn format_circuit_path(circuit: &Circuit, nodes: &[(String, String)]) -> (r: String)
    ensures
        r@ == path_text(nodes@, nodes@.len() as int),
{
    let mut path = String::new();
    let mut i: usize = 0;
    while i < nodes.len()
        invariant
            i <= nodes@.len(),
            path@ == path_text(nodes@, i as int),
        decreases nodes@.len() - i,
    {
        if i > 0 {
            path.append(" \u{2192} ");
        }
        let (name, country) = &nodes[i];
        path.append(name.as_str());
        path.append(" [");
        path.append(country.as_str());
        path.append("]");
        proof {
            let sep: Seq<char> = if i > 0 { " \u{2192} "@ } else { seq![] };
            assert(path@ =~= path_text(nodes@, i as int) + sep + name@ + " ["@ + country@ + "]"@);
        }
        i = i + 1;
    }
    path
}

} // verus!
