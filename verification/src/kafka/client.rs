//! The client configuration that the producer is made from.

use vstd::prelude::*;
use crate::kafka::config::{Config, client_properties, pairs_view};

verus! {

/// `rdkafka::ClientConfig`, the parameters a client is made from.
#[verifier::external_type_specification]
#[verifier::external_body]
pub struct ExClientConfig(rdkafka::ClientConfig);

/// The parameters that a client configuration holds, by key.
pub uninterp spec fn client_settings(config: rdkafka::ClientConfig) -> Map<Seq<char>, Seq<char>>;

/// A configuration from `rdkafka::ClientConfig::new()`, which holds no
/// parameter yet.
#[verifier::external_body]
fn empty_client_config() -> (config: rdkafka::ClientConfig)
    ensures
        client_settings(config) == settings_map(Seq::empty()),
{
    rdkafka::ClientConfig::new()
}

/// Sets one parameter with `rdkafka::ClientConfig::set`: the value stands
/// under the key afterwards, in place of any value that stood there, and
/// the other parameters stay.
#[verifier::external_body]
fn set_parameter(config: &mut rdkafka::ClientConfig, key: &String, value: &String)
    ensures
        client_settings(*final(config)) == client_settings(*old(config)).insert(key@, value@),
{
    config.set(key.clone(), value.clone());
}

/// The parameters that a list of pairs leaves, each pair set in order.
pub open spec fn settings_map(pairs: Seq<(Seq<char>, Seq<char>)>) -> Map<Seq<char>, Seq<char>>
    decreases pairs.len(),
{
    if pairs.len() == 0 {
        Map::empty()
    } else {
        settings_map(pairs.drop_last()).insert(pairs.last().0, pairs.last().1)
    }
}

/// The client configuration for the settings `cfg`: it holds exactly the
/// client's properties for them.
pub fn client_config(cfg: &Config) -> (config: rdkafka::ClientConfig)
    ensures
        client_settings(config) == settings_map(client_properties(cfg@)),
{
    let pairs = cfg.to_hash();
    let mut config = empty_client_config();
    let mut i: usize = 0;
    let ghost all = pairs_view(pairs@);
    proof {
        assert(all.take(0) =~= Seq::<(Seq<char>, Seq<char>)>::empty());
    }
    while i < pairs.len()
        invariant
            i <= pairs@.len(),
            all == pairs_view(pairs@),
            client_settings(config) == settings_map(all.take(i as int)),
        decreases pairs@.len() - i,
    {
        proof {
            assert(all.take(i + 1).drop_last() =~= all.take(i as int));
            assert(all.take(i + 1).last() == (pairs@[i as int].0@, pairs@[i as int].1@));
        }
        set_parameter(&mut config, &pairs[i].0, &pairs[i].1);
        i = i + 1;
    }
    proof {
        assert(all.take(i as int) =~= all);
    }
    config
}

} // verus!
