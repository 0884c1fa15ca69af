//! The consumer of LSST alert packets.
use vstd::prelude::*;

use crate::utils::enums::Survey;

verus! {

#[derive(Debug)]
pub struct LsstAlertConsumer {
    pub output_queue: String,
    pub simulated: bool,
}

impl LsstAlertConsumer {
    pub fn new(output_queue: Option<&str>, simulated: bool) -> (consumer: LsstAlertConsumer)
        ensures
            consumer.output_queue@ == match output_queue {
                Some(name) => name@,
                None => "LSST_alerts_packets_queue"@,
            },
            consumer.simulated == simulated,
    {
        let output_queue = match output_queue {
            Some(name) => name.to_string(),
            None => "LSST_alerts_packets_queue".to_string(),
        };
        LsstAlertConsumer { output_queue, simulated }
    }

    /// The topics to read. The same topic carries the alerts of every night.
    pub fn topic_names(&self, _timestamp: i64) -> (names: Vec<String>)
        ensures
            names@.len() == 1,
            names@[0]@ == if self.simulated {
                "alerts-simulated"@
            } else {
                "lsst-alerts-v11"@
            },
    {
        if self.simulated {
            vec!["alerts-simulated".to_string()]
        } else {
            vec!["lsst-alerts-v11".to_string()]
        }
    }

    pub fn output_queue(&self) -> (name: String)
        ensures
            name@ == self.output_queue@,
    {
        self.output_queue.clone()
    }

    pub fn survey(&self) -> (survey: Survey)
        ensures
            survey == Survey::Lsst,
    {
        Survey::Lsst
    }
}

}
