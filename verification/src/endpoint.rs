//! Where the upstream services are, by region.
use vstd::prelude::*;

verus! {

/// The domain of the upstream in a region.
pub open spec fn domain_of(region: Seq<char>) -> Seq<char> {
    "q."@ + region + ".amazonaws.com"@
}

/// The address of the assistant in a region.
pub open spec fn assistant_url_of(region: Seq<char>) -> Seq<char> {
    "https://q."@ + region + ".amazonaws.com/generateAssistantResponse"@
}

/// The address of the tools in a region.
pub open spec fn mcp_url_of(region: Seq<char>) -> Seq<char> {
    "https://q."@ + region + ".amazonaws.com/mcp"@
}

/// The domain of the upstream in a region.
pub fn domain(region: &str) -> (text: String)
    ensures
        text@ == domain_of(region@),
{
    let mut text = "q.".to_owned();
    text.append(region);
    text.append(".amazonaws.com");
    text
}

/// The address of the assistant in a region.
pub fn assistant_url(region: &str) -> (text: String)
    ensures
        text@ == assistant_url_of(region@),
{
    let mut text = "https://q.".to_owned();
    text.append(region);
    text.append(".amazonaws.com/generateAssistantResponse");
    text
}

/// The address of the tools in a region.
pub fn mcp_url(region: &str) -> (text: String)
    ensures
        text@ == mcp_url_of(region@),
{
    let mut text = "https://q.".to_owned();
    text.append(region);
    text.append(".amazonaws.com/mcp");
    text
}

/// Both services are reached over HTTPS, on the domain that requests name as their host.
pub proof fn law_services_share_the_domain(region: Seq<char>)
    ensures
        assistant_url_of(region) == "https://"@ + domain_of(region) + "/generateAssistantResponse"@,
        mcp_url_of(region) == "https://"@ + domain_of(region) + "/mcp"@,
{
    reveal_strlit("https://");
    reveal_strlit("https://q.");
    reveal_strlit("q.");
    reveal_strlit(".amazonaws.com");
    reveal_strlit("/generateAssistantResponse");
    reveal_strlit(".amazonaws.com/generateAssistantResponse");
    reveal_strlit("/mcp");
    reveal_strlit(".amazonaws.com/mcp");
    assert("https://q."@ =~= "https://"@ + "q."@);
    assert(".amazonaws.com/generateAssistantResponse"@ =~= ".amazonaws.com"@
        + "/generateAssistantResponse"@);
    assert(".amazonaws.com/mcp"@ =~= ".amazonaws.com"@ + "/mcp"@);
    assert(assistant_url_of(region) =~= "https://"@ + domain_of(region)
        + "/generateAssistantResponse"@);
    assert(mcp_url_of(region) =~= "https://"@ + domain_of(region) + "/mcp"@);
}

/// What stands around the region is the same everywhere: the domain begins with `q.`, ends with
/// `.amazonaws.com` and has the region between them, and no two regions share a domain.
pub proof fn law_domains_hold_the_region(region: Seq<char>, other: Seq<char>)
    ensures
        domain_of(region).len() == region.len() + 16,
        domain_of(region).take(2) == "q."@,
        domain_of(region).subrange(2, 2 + region.len() as int) == region,
        domain_of(region).skip(2 + region.len() as int) == ".amazonaws.com"@,
        domain_of(region) == domain_of(other) ==> region == other,
{
    reveal_strlit("q.");
    reveal_strlit(".amazonaws.com");
    assert(domain_of(region).take(2) =~= "q."@);
    assert(domain_of(region).subrange(2, 2 + region.len() as int) =~= region);
    assert(domain_of(region).skip(2 + region.len() as int) =~= ".amazonaws.com"@);
    assert(domain_of(other).subrange(2, 2 + other.len() as int) =~= other);
}

} // verus!
