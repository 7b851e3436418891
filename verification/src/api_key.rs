//! The API code table: every numeric API identifier the protocol knows.
//!
//! The table is closed: a validated constructor maps a numeric code to its
//! symbolic name and fails for unmapped codes (the documented gaps included),
//! never defaulting silently.

use vstd::prelude::*;

use crate::error::Error;

verus! {

/// Numeric codes that the API key field of a request can take.
#[derive(Clone, Copy, Debug, PartialEq, Eq, Structural)]
pub enum ApiKey {
    Produce,
    Fetch,
    ListOffsets,
    Metadata,
    LeaderAndIsr,
    StopReplica,
    UpdateMetadata,
    ControlledShutdown,
    OffsetCommit,
    OffsetFetch,
    FindCoordinator,
    JoinGroup,
    Heartbeat,
    LeaveGroup,
    SyncGroup,
    DescribeGroups,
    ListGroups,
    SaslHandshake,
    ApiVersions,
    CreateTopics,
    DeleteTopics,
    DeleteRecords,
    InitProducerId,
    OffsetForLeaderEpoch,
    AddPartitionsToTransaction,
    AddOffsetsToTransaction,
    EndTransaction,
    WriteTransactionMarkers,
    TransactionOffsetCommit,
    DescribeAcls,
    CreateAcls,
    DeleteAcls,
    DescribeConfigs,
    AlterConfigs,
    AlterReplicaLogDirs,
    DescribeLogDirs,
    SaslAuthenticate,
    CreatePartitions,
    CreateDelegationToken,
    RenewDelegationToken,
    ExpireDelegationToken,
    DescribeDelegationToken,
    DeleteGroups,
    ElectLeaders,
    IncrementalAlterConfigs,
    AlterPartitionReassignments,
    ListPartitionReassignments,
    OffsetDelete,
    DescribeClientQuotas,
    AlterClientQuotas,
    DescribeUserScramCredentials,
    AlterUserScramCredentials,
    DescribeQuorum,
    AlterPartition,
    UpdateFeatures,
    Envelope,
    DescribeCluster,
    DescribeProducers,
    UnregisterBroker,
    DescribeTransactions,
    ListTransactions,
    AllocateProducerIds,
    ConsumerGroupHeartbeat,
    ConsumerGroupDescribe,
    GetTelemetrySubscriptions,
    PushTelemetry,
    ListClientMetricsResources,
}

/// The code table as a function: which key, if any, a numeric code names.
pub open spec fn spec_api_key_from_code(v: i16) -> Option<ApiKey> {
    if v == 0 {
        Some(ApiKey::Produce)
    } else if v == 1 {
        Some(ApiKey::Fetch)
    } else if v == 2 {
        Some(ApiKey::ListOffsets)
    } else if v == 3 {
        Some(ApiKey::Metadata)
    } else if v == 4 {
        Some(ApiKey::LeaderAndIsr)
    } else if v == 5 {
        Some(ApiKey::StopReplica)
    } else if v == 6 {
        Some(ApiKey::UpdateMetadata)
    } else if v == 7 {
        Some(ApiKey::ControlledShutdown)
    } else if v == 8 {
        Some(ApiKey::OffsetCommit)
    } else if v == 9 {
        Some(ApiKey::OffsetFetch)
    } else if v == 10 {
        Some(ApiKey::FindCoordinator)
    } else if v == 11 {
        Some(ApiKey::JoinGroup)
    } else if v == 12 {
        Some(ApiKey::Heartbeat)
    } else if v == 13 {
        Some(ApiKey::LeaveGroup)
    } else if v == 14 {
        Some(ApiKey::SyncGroup)
    } else if v == 15 {
        Some(ApiKey::DescribeGroups)
    } else if v == 16 {
        Some(ApiKey::ListGroups)
    } else if v == 17 {
        Some(ApiKey::SaslHandshake)
    } else if v == 18 {
        Some(ApiKey::ApiVersions)
    } else if v == 19 {
        Some(ApiKey::CreateTopics)
    } else if v == 20 {
        Some(ApiKey::DeleteTopics)
    } else if v == 21 {
        Some(ApiKey::DeleteRecords)
    } else if v == 22 {
        Some(ApiKey::InitProducerId)
    } else if v == 23 {
        Some(ApiKey::OffsetForLeaderEpoch)
    } else if v == 24 {
        Some(ApiKey::AddPartitionsToTransaction)
    } else if v == 25 {
        Some(ApiKey::AddOffsetsToTransaction)
    } else if v == 26 {
        Some(ApiKey::EndTransaction)
    } else if v == 27 {
        Some(ApiKey::WriteTransactionMarkers)
    } else if v == 28 {
        Some(ApiKey::TransactionOffsetCommit)
    } else if v == 29 {
        Some(ApiKey::DescribeAcls)
    } else if v == 30 {
        Some(ApiKey::CreateAcls)
    } else if v == 31 {
        Some(ApiKey::DeleteAcls)
    } else if v == 32 {
        Some(ApiKey::DescribeConfigs)
    } else if v == 33 {
        Some(ApiKey::AlterConfigs)
    } else if v == 34 {
        Some(ApiKey::AlterReplicaLogDirs)
    } else if v == 35 {
        Some(ApiKey::DescribeLogDirs)
    } else if v == 36 {
        Some(ApiKey::SaslAuthenticate)
    } else if v == 37 {
        Some(ApiKey::CreatePartitions)
    } else if v == 38 {
        Some(ApiKey::CreateDelegationToken)
    } else if v == 39 {
        Some(ApiKey::RenewDelegationToken)
    } else if v == 40 {
        Some(ApiKey::ExpireDelegationToken)
    } else if v == 41 {
        Some(ApiKey::DescribeDelegationToken)
    } else if v == 42 {
        Some(ApiKey::DeleteGroups)
    } else if v == 43 {
        Some(ApiKey::ElectLeaders)
    } else if v == 44 {
        Some(ApiKey::IncrementalAlterConfigs)
    } else if v == 45 {
        Some(ApiKey::AlterPartitionReassignments)
    } else if v == 46 {
        Some(ApiKey::ListPartitionReassignments)
    } else if v == 47 {
        Some(ApiKey::OffsetDelete)
    } else if v == 48 {
        Some(ApiKey::DescribeClientQuotas)
    } else if v == 49 {
        Some(ApiKey::AlterClientQuotas)
    } else if v == 50 {
        Some(ApiKey::DescribeUserScramCredentials)
    } else if v == 51 {
        Some(ApiKey::AlterUserScramCredentials)
    } else if v == 55 {
        Some(ApiKey::DescribeQuorum)
    } else if v == 56 {
        Some(ApiKey::AlterPartition)
    } else if v == 57 {
        Some(ApiKey::UpdateFeatures)
    } else if v == 58 {
        Some(ApiKey::Envelope)
    } else if v == 60 {
        Some(ApiKey::DescribeCluster)
    } else if v == 61 {
        Some(ApiKey::DescribeProducers)
    } else if v == 64 {
        Some(ApiKey::UnregisterBroker)
    } else if v == 65 {
        Some(ApiKey::DescribeTransactions)
    } else if v == 66 {
        Some(ApiKey::ListTransactions)
    } else if v == 67 {
        Some(ApiKey::AllocateProducerIds)
    } else if v == 68 {
        Some(ApiKey::ConsumerGroupHeartbeat)
    } else if v == 69 {
        Some(ApiKey::ConsumerGroupDescribe)
    } else if v == 71 {
        Some(ApiKey::GetTelemetrySubscriptions)
    } else if v == 72 {
        Some(ApiKey::PushTelemetry)
    } else if v == 74 {
        Some(ApiKey::ListClientMetricsResources)
    } else {
        None
    }
}

/// The numeric code of each key: the inverse of the table.
pub open spec fn spec_api_key_code(k: ApiKey) -> i16 {
    match k {
        ApiKey::Produce => 0,
        ApiKey::Fetch => 1,
        ApiKey::ListOffsets => 2,
        ApiKey::Metadata => 3,
        ApiKey::LeaderAndIsr => 4,
        ApiKey::StopReplica => 5,
        ApiKey::UpdateMetadata => 6,
        ApiKey::ControlledShutdown => 7,
        ApiKey::OffsetCommit => 8,
        ApiKey::OffsetFetch => 9,
        ApiKey::FindCoordinator => 10,
        ApiKey::JoinGroup => 11,
        ApiKey::Heartbeat => 12,
        ApiKey::LeaveGroup => 13,
        ApiKey::SyncGroup => 14,
        ApiKey::DescribeGroups => 15,
        ApiKey::ListGroups => 16,
        ApiKey::SaslHandshake => 17,
        ApiKey::ApiVersions => 18,
        ApiKey::CreateTopics => 19,
        ApiKey::DeleteTopics => 20,
        ApiKey::DeleteRecords => 21,
        ApiKey::InitProducerId => 22,
        ApiKey::OffsetForLeaderEpoch => 23,
        ApiKey::AddPartitionsToTransaction => 24,
        ApiKey::AddOffsetsToTransaction => 25,
        ApiKey::EndTransaction => 26,
        ApiKey::WriteTransactionMarkers => 27,
        ApiKey::TransactionOffsetCommit => 28,
        ApiKey::DescribeAcls => 29,
        ApiKey::CreateAcls => 30,
        ApiKey::DeleteAcls => 31,
        ApiKey::DescribeConfigs => 32,
        ApiKey::AlterConfigs => 33,
        ApiKey::AlterReplicaLogDirs => 34,
        ApiKey::DescribeLogDirs => 35,
        ApiKey::SaslAuthenticate => 36,
        ApiKey::CreatePartitions => 37,
        ApiKey::CreateDelegationToken => 38,
        ApiKey::RenewDelegationToken => 39,
        ApiKey::ExpireDelegationToken => 40,
        ApiKey::DescribeDelegationToken => 41,
        ApiKey::DeleteGroups => 42,
        ApiKey::ElectLeaders => 43,
        ApiKey::IncrementalAlterConfigs => 44,
        ApiKey::AlterPartitionReassignments => 45,
        ApiKey::ListPartitionReassignments => 46,
        ApiKey::OffsetDelete => 47,
        ApiKey::DescribeClientQuotas => 48,
        ApiKey::AlterClientQuotas => 49,
        ApiKey::DescribeUserScramCredentials => 50,
        ApiKey::AlterUserScramCredentials => 51,
        ApiKey::DescribeQuorum => 55,
        ApiKey::AlterPartition => 56,
        ApiKey::UpdateFeatures => 57,
        ApiKey::Envelope => 58,
        ApiKey::DescribeCluster => 60,
        ApiKey::DescribeProducers => 61,
        ApiKey::UnregisterBroker => 64,
        ApiKey::DescribeTransactions => 65,
        ApiKey::ListTransactions => 66,
        ApiKey::AllocateProducerIds => 67,
        ApiKey::ConsumerGroupHeartbeat => 68,
        ApiKey::ConsumerGroupDescribe => 69,
        ApiKey::GetTelemetrySubscriptions => 71,
        ApiKey::PushTelemetry => 72,
        ApiKey::ListClientMetricsResources => 74,
    }
}

impl ApiKey {
    /// Resolves a numeric code against the table; unmapped codes (including
    /// the documented gaps) fail with `InvalidApiKey`.
    pub fn from_code(value: i16) -> (r: Result<ApiKey, Error>)
        ensures
            match r {
                Ok(k) => spec_api_key_from_code(value) == Some(k),
                Err(e) => spec_api_key_from_code(value) is None && e == Error::InvalidApiKey(
                    value,
                ),
            },
    {
        match value {
            0 => Ok(ApiKey::Produce),
            1 => Ok(ApiKey::Fetch),
            2 => Ok(ApiKey::ListOffsets),
            3 => Ok(ApiKey::Metadata),
            4 => Ok(ApiKey::LeaderAndIsr),
            5 => Ok(ApiKey::StopReplica),
            6 => Ok(ApiKey::UpdateMetadata),
            7 => Ok(ApiKey::ControlledShutdown),
            8 => Ok(ApiKey::OffsetCommit),
            9 => Ok(ApiKey::OffsetFetch),
            10 => Ok(ApiKey::FindCoordinator),
            11 => Ok(ApiKey::JoinGroup),
            12 => Ok(ApiKey::Heartbeat),
            13 => Ok(ApiKey::LeaveGroup),
            14 => Ok(ApiKey::SyncGroup),
            15 => Ok(ApiKey::DescribeGroups),
            16 => Ok(ApiKey::ListGroups),
            17 => Ok(ApiKey::SaslHandshake),
            18 => Ok(ApiKey::ApiVersions),
            19 => Ok(ApiKey::CreateTopics),
            20 => Ok(ApiKey::DeleteTopics),
            21 => Ok(ApiKey::DeleteRecords),
            22 => Ok(ApiKey::InitProducerId),
            23 => Ok(ApiKey::OffsetForLeaderEpoch),
            24 => Ok(ApiKey::AddPartitionsToTransaction),
            25 => Ok(ApiKey::AddOffsetsToTransaction),
            26 => Ok(ApiKey::EndTransaction),
            27 => Ok(ApiKey::WriteTransactionMarkers),
            28 => Ok(ApiKey::TransactionOffsetCommit),
            29 => Ok(ApiKey::DescribeAcls),
            30 => Ok(ApiKey::CreateAcls),
            31 => Ok(ApiKey::DeleteAcls),
            32 => Ok(ApiKey::DescribeConfigs),
            33 => Ok(ApiKey::AlterConfigs),
            34 => Ok(ApiKey::AlterReplicaLogDirs),
            35 => Ok(ApiKey::DescribeLogDirs),
            36 => Ok(ApiKey::SaslAuthenticate),
            37 => Ok(ApiKey::CreatePartitions),
            38 => Ok(ApiKey::CreateDelegationToken),
            39 => Ok(ApiKey::RenewDelegationToken),
            40 => Ok(ApiKey::ExpireDelegationToken),
            41 => Ok(ApiKey::DescribeDelegationToken),
            42 => Ok(ApiKey::DeleteGroups),
            43 => Ok(ApiKey::ElectLeaders),
            44 => Ok(ApiKey::IncrementalAlterConfigs),
            45 => Ok(ApiKey::AlterPartitionReassignments),
            46 => Ok(ApiKey::ListPartitionReassignments),
            47 => Ok(ApiKey::OffsetDelete),
            48 => Ok(ApiKey::DescribeClientQuotas),
            49 => Ok(ApiKey::AlterClientQuotas),
            50 => Ok(ApiKey::DescribeUserScramCredentials),
            51 => Ok(ApiKey::AlterUserScramCredentials),
            55 => Ok(ApiKey::DescribeQuorum),
            56 => Ok(ApiKey::AlterPartition),
            57 => Ok(ApiKey::UpdateFeatures),
            58 => Ok(ApiKey::Envelope),
            60 => Ok(ApiKey::DescribeCluster),
            61 => Ok(ApiKey::DescribeProducers),
            64 => Ok(ApiKey::UnregisterBroker),
            65 => Ok(ApiKey::DescribeTransactions),
            66 => Ok(ApiKey::ListTransactions),
            67 => Ok(ApiKey::AllocateProducerIds),
            68 => Ok(ApiKey::ConsumerGroupHeartbeat),
            69 => Ok(ApiKey::ConsumerGroupDescribe),
            71 => Ok(ApiKey::GetTelemetrySubscriptions),
            72 => Ok(ApiKey::PushTelemetry),
            74 => Ok(ApiKey::ListClientMetricsResources),
            _ => Err(Error::InvalidApiKey(value)),
        }
    }

    /// The numeric code this key takes on the wire.
    pub fn code(self) -> (r: i16)
        ensures
            r == spec_api_key_code(self),
    {
        match self {
            ApiKey::Produce => 0,
            ApiKey::Fetch => 1,
            ApiKey::ListOffsets => 2,
            ApiKey::Metadata => 3,
            ApiKey::LeaderAndIsr => 4,
            ApiKey::StopReplica => 5,
            ApiKey::UpdateMetadata => 6,
            ApiKey::ControlledShutdown => 7,
            ApiKey::OffsetCommit => 8,
            ApiKey::OffsetFetch => 9,
            ApiKey::FindCoordinator => 10,
            ApiKey::JoinGroup => 11,
            ApiKey::Heartbeat => 12,
            ApiKey::LeaveGroup => 13,
            ApiKey::SyncGroup => 14,
            ApiKey::DescribeGroups => 15,
            ApiKey::ListGroups => 16,
            ApiKey::SaslHandshake => 17,
            ApiKey::ApiVersions => 18,
            ApiKey::CreateTopics => 19,
            ApiKey::DeleteTopics => 20,
            ApiKey::DeleteRecords => 21,
            ApiKey::InitProducerId => 22,
            ApiKey::OffsetForLeaderEpoch => 23,
            ApiKey::AddPartitionsToTransaction => 24,
            ApiKey::AddOffsetsToTransaction => 25,
            ApiKey::EndTransaction => 26,
            ApiKey::WriteTransactionMarkers => 27,
            ApiKey::TransactionOffsetCommit => 28,
            ApiKey::DescribeAcls => 29,
            ApiKey::CreateAcls => 30,
            ApiKey::DeleteAcls => 31,
            ApiKey::DescribeConfigs => 32,
            ApiKey::AlterConfigs => 33,
            ApiKey::AlterReplicaLogDirs => 34,
            ApiKey::DescribeLogDirs => 35,
            ApiKey::SaslAuthenticate => 36,
            ApiKey::CreatePartitions => 37,
            ApiKey::CreateDelegationToken => 38,
            ApiKey::RenewDelegationToken => 39,
            ApiKey::ExpireDelegationToken => 40,
            ApiKey::DescribeDelegationToken => 41,
            ApiKey::DeleteGroups => 42,
            ApiKey::ElectLeaders => 43,
            ApiKey::IncrementalAlterConfigs => 44,
            ApiKey::AlterPartitionReassignments => 45,
            ApiKey::ListPartitionReassignments => 46,
            ApiKey::OffsetDelete => 47,
            ApiKey::DescribeClientQuotas => 48,
            ApiKey::AlterClientQuotas => 49,
            ApiKey::DescribeUserScramCredentials => 50,
            ApiKey::AlterUserScramCredentials => 51,
            ApiKey::DescribeQuorum => 55,
            ApiKey::AlterPartition => 56,
            ApiKey::UpdateFeatures => 57,
            ApiKey::Envelope => 58,
            ApiKey::DescribeCluster => 60,
            ApiKey::DescribeProducers => 61,
            ApiKey::UnregisterBroker => 64,
            ApiKey::DescribeTransactions => 65,
            ApiKey::ListTransactions => 66,
            ApiKey::AllocateProducerIds => 67,
            ApiKey::ConsumerGroupHeartbeat => 68,
            ApiKey::ConsumerGroupDescribe => 69,
            ApiKey::GetTelemetrySubscriptions => 71,
            ApiKey::PushTelemetry => 72,
            ApiKey::ListClientMetricsResources => 74,
        }
    }
}

/// The table is a bijection between mapped codes and keys: resolving a key's
/// own code returns that key, and a successfully resolved code is the code of
/// what it resolved to.
pub proof fn lemma_api_key_table_bijective()
    ensures
        forall|k: ApiKey| spec_api_key_from_code(#[trigger] spec_api_key_code(k)) == Some(k),
        forall|v: i16| #[trigger] spec_api_key_from_code(v) matches Some(k)
            ==> spec_api_key_code(k) == v,
{
}

} // verus!
