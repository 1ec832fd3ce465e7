//! Network processor — reads pcap capture headers and counts packets.
use std::collections::HashMap;
use vstd::prelude::*;
use crate::bytes::{be32, be32_at, le32, le32_at};
use crate::observation::{
    ObsModel, ProcessedObservation, ProcessorError, decimal_text, obs, obs_models, push_obs,
    size_obs, size_observation, suffixed, text_bytes, text_obs, text_observation, utf8, with_meta,
};
use crate::text::decimal;

verus! {

/// Processor for network captures.
pub struct NetworkProcessor;

/// Link-layer name of a pcap network number.
pub open spec fn link_type_name(net: int) -> Seq<char> {
    if net == 1 {
        "Ethernet"@
    } else if net == 101 {
        "Raw IP"@
    } else if net == 0 {
        "Null/Loopback"@
    } else if net == 108 {
        "Linux SLL"@
    } else if net == 113 {
        "Linux SLL2"@
    } else {
        "Unknown"@
    }
}

/// The little-endian magic of a capture.
pub open spec fn pcap_magic(d: Seq<u8>) -> int {
    le32(d[0], d[1], d[2], d[3])
}

/// The link type of a pcap global header, when `d` has one.
pub open spec fn pcap_link_type(d: Seq<u8>) -> Option<Seq<char>> {
    if d.len() < 24 {
        None
    } else if pcap_magic(d) == 0xA1B2C3D4 || pcap_magic(d) == 0xD4C3B2A1 {
        Some(link_type_name(le32(d[20], d[21], d[22], d[23])))
    } else {
        None
    }
}

/// Captured length of the packet record at `pos`.
pub open spec fn incl_len(d: Seq<u8>, swap: bool, pos: int) -> int {
    if swap {
        be32(d[pos + 8], d[pos + 9], d[pos + 10], d[pos + 11])
    } else {
        le32(d[pos + 8], d[pos + 9], d[pos + 10], d[pos + 11])
    }
}

/// Packet records counted from offset `pos`: a record with an empty
/// payload stops the count, and a record running past the end counts once.
pub open spec fn packets_from(d: Seq<u8>, swap: bool, pos: int) -> nat
    decreases d.len() - pos,
{
    if pos < 0 || pos + 16 > d.len() {
        0
    } else if incl_len(d, swap, pos) == 0 {
        0
    } else if pos + 16 + incl_len(d, swap, pos) > d.len() {
        1
    } else {
        1 + packets_from(d, swap, pos + 16 + incl_len(d, swap, pos))
    }
}

/// Packets of a capture after its 24-byte global header.
pub open spec fn packet_count(d: Seq<u8>) -> nat {
    if d.len() < 24 {
        0
    } else {
        packets_from(d, pcap_magic(d) == 0xD4C3B2A1, 24)
    }
}

/// The observations the network processor derives from `d`.
pub open spec fn network_observations(id: Seq<char>, d: Seq<u8>) -> Seq<ObsModel> {
    let a: Seq<ObsModel> = match pcap_link_type(d) {
        Some(lt) => seq![
            text_obs(id, "_link_type"@, "network.link_type"@, lt),
            with_meta(
                with_meta(obs(id + "_packets"@, "network.packet_count"@, utf8(decimal(packet_count(d))), "text/plain"@), "count"@, decimal(packet_count(d))),
                "source_observation"@,
                id,
            ),
        ],
        None => seq![],
    };
    a + seq![size_obs(id, "network.metadata"@, d.len())]
}

impl NetworkProcessor {
    pub fn new() -> (r: Self) {
        NetworkProcessor
    }

    /// Processor name.
    pub fn name(&self) -> (r: &'static str)
        ensures
            r@ == "network"@,
    {
        "network"
    }

    /// Processor description.
    pub fn description(&self) -> (r: &'static str)
        ensures
            r@ == "Analyzes network captures (pcap) and extracts packet metadata"@,
    {
        "Analyzes network captures (pcap) and extracts packet metadata"
    }

    /// Content types this processor accepts.
    pub fn content_types(&self) -> (r: Vec<&'static str>)
        ensures
            r@.map_values(|s: &'static str| s@) == seq![
                "application/vnd.tcpdump.pcap"@,
                "application/x-pcapng"@,
                "application/x-pcap"@,
                "application/x-pcapng"@,
            ],
    {
        let r = vec!["application/vnd.tcpdump.pcap", "application/x-pcapng", "application/x-pcap", "application/x-pcapng"];
        assert(r@.map_values(|s: &'static str| s@) =~= seq![
            "application/vnd.tcpdump.pcap"@,
            "application/x-pcapng"@,
            "application/x-pcap"@,
            "application/x-pcapng"@,
        ]);
        r
    }

    /// The link type of the pcap global header.
    pub fn parse_pcap_global_header(&self, data: &[u8]) -> (r: Option<&'static str>)
        ensures
            match pcap_link_type(data@) {
                Some(lt) => r matches Some(s) && s@ == lt,
                None => r is None,
            },
    {
        if data.len() < 24 {
            return None;
        }
        let magic = le32_at(data, 0);
        if !(magic == 0xA1B2C3D4 || magic == 0xD4C3B2A1) {
            return None;
        }
        let network = le32_at(data, 20);
        let link_type = if network == 1 {
            "Ethernet"
        } else if network == 101 {
            "Raw IP"
        } else if network == 0 {
            "Null/Loopback"
        } else if network == 108 {
            "Linux SLL"
        } else if network == 113 {
            "Linux SLL2"
        } else {
            "Unknown"
        };
        Some(link_type)
    }

    /// Number of packet records after the global header.
    pub fn count_packets(&self, data: &[u8]) -> (r: usize)
        ensures
            r == packet_count(data@),
    {
        let n = data.len();
        if n < 24 {
            return 0;
        }
        let magic = le32_at(data, 0);
        let swap = magic == 0xD4C3B2A1;
        let mut pos: usize = 24;
        let mut count: usize = 0;
        loop
            invariant
                n == data@.len(),
                24 <= pos <= n,
                count <= pos,
                swap == (pcap_magic(data@) == 0xD4C3B2A1),
                count + packets_from(data@, swap, pos as int) == packet_count(data@),
            decreases n - pos,
        {
            if n - pos < 16 {
                return count;
            }
            let incl = if swap {
                be32_at(data, pos + 8)
            } else {
                le32_at(data, pos + 8)
            };
            if incl == 0 {
                return count;
            }
            if incl as u64 > (n - pos - 16) as u64 {
                return count + 1;
            }
            pos = pos + 16 + incl as usize;
            count += 1;
        }
    }

    /// The link type and packet count of a capture, and its size; data
    /// without a pcap global header fails.
    pub fn process(
        &self,
        id: &str,
        data: &[u8],
        _content_type: Option<&str>,
        _metadata: HashMap<String, String>,
    ) -> (r: Result<Vec<ProcessedObservation>, ProcessorError>)
        ensures
            pcap_link_type(data@) is None <==> r matches Err(ProcessorError::ProcessingFailed(_)),
            pcap_link_type(data@) is Some ==> r is Ok,
            r matches Ok(v) ==> obs_models(v@) == network_observations(id@, data@),
    {
        if self.parse_pcap_global_header(data).is_none() {
            return Err(ProcessorError::ProcessingFailed(crate::text::string_of(crate::text::chars_of("no pcap header detected").as_slice())));
        }
        let mut results: Vec<ProcessedObservation> = Vec::new();
        if let Some(link_type) = self.parse_pcap_global_header(data) {
            push_obs(&mut results, text_observation(id, "_link_type", "network.link_type", link_type));
            let packet_count = self.count_packets(data);
            let d = decimal_text(packet_count);
            push_obs(
                &mut results,
                ProcessedObservation::new(suffixed(id, "_packets"), "network.packet_count", text_bytes(d.as_str()), "text/plain")
                    .with_metadata("count", d.as_str())
                    .with_metadata("source_observation", id),
            );
        }
        let ghost a = obs_models(results@);
        push_obs(&mut results, size_observation(id, "network.metadata", data.len()));
        proof {
            if pcap_link_type(data@) is None {
                assert(a =~= Seq::<ObsModel>::empty());
            } else {
                assert(a =~= network_observations(id@, data@).drop_last());
            }
        }
        Ok(results)
    }
}

} // verus!
