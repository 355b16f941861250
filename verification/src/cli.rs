//! The command surface's decisions: which operation was asked for, which
//! site a `generate` run works on, and the numbered listing of known sites.
//! Prompting, argument parsing and printing are left to the program around
//! the library.

use vstd::prelude::*;
use vstd::string::StringExecFns;

use crate::hashes::ascii_to_string;
use crate::registry::site_listed;

verus! {

/// The parsed command line: an optional subcommand; none means the
/// interactive flow.
pub struct Cli {
    pub command: Option<Commands>,
}

/// The three operations of the command surface.
pub enum Commands {
    Add { site: Option<String> },
    Generate { site: Option<String> },
    List,
}

/// What a `generate` run does about its site, decided from the registry's
/// sites and the optional explicitly named site.
pub enum SiteChoice {
    /// The registry is empty: nothing to generate for; a site must be added
    /// first.
    NoSites,
    /// The named site is not in the registry: report it, derive nothing.
    NotFound(String),
    /// Derive for this site.
    Chosen(String),
    /// No site was named: present the registry's sites for selection.
    PromptSelect,
}

/// Decides which site a `generate` run works on: with an empty registry
/// nothing is derived; a named site is used exactly when the registry holds
/// it; with no site named the caller must offer a selection. The
/// interactive flow is the same decision with no site named.
pub fn resolve_generate_site(sites: &Vec<String>, requested: Option<String>) -> (r: SiteChoice)
    ensures
        r is NoSites <==> sites@.len() == 0,
        r is PromptSelect <==> sites@.len() > 0 && requested is None,
        r matches SiteChoice::Chosen(s) ==> requested == Some(s) && site_listed(sites@, s@),
        r matches SiteChoice::NotFound(s) ==> requested == Some(s) && !site_listed(sites@, s@),
        sites@.len() > 0 && requested is Some ==> r is Chosen || r is NotFound,
{
    if sites.len() == 0 {
        return SiteChoice::NoSites;
    }
    match requested {
        None => SiteChoice::PromptSelect,
        Some(site) => {
            if crate::registry::contains_site(sites, &site) {
                SiteChoice::Chosen(site)
            } else {
                SiteChoice::NotFound(site)
            }
        },
    }
}

/// The decimal digit characters of a number, most significant first, no
/// sign and no leading zero.
pub open spec fn spec_decimal_bytes(n: nat) -> Seq<u8>
    decreases n,
{
    if n < 10 {
        seq![(n + 48) as u8]
    } else {
        spec_decimal_bytes(n / 10).push((n % 10 + 48) as u8)
    }
}

/// The same digits, as the characters of a string.
pub open spec fn spec_decimal_chars(n: nat) -> Seq<char> {
    spec_decimal_bytes(n).map_values(|b: u8| b as char)
}

/// Every decimal digit byte is an ASCII digit.
proof fn lemma_decimal_bytes_ascii(n: nat)
    ensures
        forall|i: int|
            0 <= i < spec_decimal_bytes(n).len() ==> 48 <= #[trigger] spec_decimal_bytes(n)[i]
                <= 57,
    decreases n,
{
    if n >= 10 {
        lemma_decimal_bytes_ascii(n / 10);
        assert forall|i: int| 0 <= i < spec_decimal_bytes(n).len() implies 48
            <= #[trigger] spec_decimal_bytes(n)[i] <= 57 by {
            if i < spec_decimal_bytes(n).len() - 1 {
                assert(spec_decimal_bytes(n)[i] == spec_decimal_bytes(n / 10)[i]);
            } else {
                assert(spec_decimal_bytes(n)[i] == (n % 10 + 48) as u8);
            }
        }
    }
}

/// Writes a number in decimal.
fn decimal_string(n: usize) -> (r: String)
    ensures
        r@ == spec_decimal_chars(n as nat),
{
    let mut digits: Vec<u8> = Vec::new();
    let mut m: usize = n;
    let mut low = false;
    while !low
        invariant
            !low ==> spec_decimal_bytes(n as nat) =~= spec_decimal_bytes(m as nat) + Seq::new(
                digits@.len(),
                |j: int| digits@[digits@.len() - 1 - j],
            ),
            low ==> m < 10 && spec_decimal_bytes(n as nat) =~= seq![(m + 48) as u8] + Seq::new(
                digits@.len(),
                |j: int| digits@[digits@.len() - 1 - j],
            ),
        decreases m + (if low { 0int } else { 1int }),
    {
        if m < 10 {
            low = true;
        } else {
            let ghost prev = digits@;
            digits.push((m % 10 + 48) as u8);
            proof {
                assert(Seq::new(digits@.len(), |j: int| digits@[digits@.len() - 1 - j]) =~= seq![
                    (m as nat % 10 + 48) as u8,
                ] + Seq::new(prev.len(), |j: int| prev[prev.len() - 1 - j]));
            }
            m = m / 10;
        }
    }
    let mut out: Vec<u8> = Vec::new();
    out.push((m + 48) as u8);
    let mut j: usize = digits.len();
    while j > 0
        invariant
            j <= digits@.len(),
            m < 10,
            out@ =~= seq![(m + 48) as u8] + Seq::new(
                (digits@.len() - j) as nat,
                |t: int| digits@[digits@.len() - 1 - t],
            ),
        decreases j,
    {
        j -= 1;
        out.push(digits[j]);
        proof {
            assert(out@ =~= seq![(m + 48) as u8] + Seq::new(
                (digits@.len() - j) as nat,
                |t: int| digits@[digits@.len() - 1 - t],
            ));
        }
    }
    proof {
        assert(out@ =~= spec_decimal_bytes(n as nat));
        lemma_decimal_bytes_ascii(n as nat);
    }
    let r = ascii_to_string(&out);
    proof {
        assert(r@ =~= spec_decimal_chars(n as nat));
    }
    r
}

/// The line that the listing prints for the site at a zero-based position:
/// the one-based number, a dot, a space, the name.
pub open spec fn spec_listing_line(position: int, site: Seq<char>) -> Seq<char> {
    spec_decimal_chars((position + 1) as nat) + ". "@ + site
}

/// Formats the registry's sites as a numbered listing, one line per site,
/// numbered from one in the order given.
pub fn format_site_listing(sites: &Vec<String>) -> (r: Vec<String>)
    requires
        sites@.len() < usize::MAX,
    ensures
        r@.len() == sites@.len(),
        forall|i: int|
            0 <= i < r@.len() ==> (#[trigger] r@[i])@ == spec_listing_line(i, sites@[i]@),
{
    let n = sites.len();
    let mut r: Vec<String> = Vec::new();
    let mut i: usize = 0;
    while i < n
        invariant
            i <= n,
            n == sites@.len(),
            n < usize::MAX,
            r@.len() == i,
            forall|k: int|
                0 <= k < i ==> (#[trigger] r@[k])@ == spec_listing_line(k, sites@[k]@),
        decreases n - i,
    {
        let mut line = decimal_string(i + 1);
        line.append(". ");
        line.append(sites[i].as_str());
        r.push(line);
        i += 1;
    }
    r
}

} // verus!
