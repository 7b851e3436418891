//! The operation-status code table: the closed enumeration of numeric codes
//! a broker can answer with, each with its retriability classification.
//!
//! The table is closed with documented gaps: an unmapped numeric value in a
//! gap is a decode failure, never an "unknown" placeholder. Code `0` means
//! "no error" and maps to absence. The retriability flag is exposed for
//! callers to drive their own retry policy; nothing here retries.

use vstd::prelude::*;

use crate::error::Error;

verus! {

/// Numeric status codes that indicate what problem occurred on the server.
#[derive(Clone, Copy, Debug, PartialEq, Eq, Structural)]
pub enum ErrorCode {
    UnknownServerError,
    OffsetOutOfRange,
    CorruptMessage,
    UnknownTopicOrPartition,
    InvalidFetchSize,
    LeaderNotAvailable,
    NotLeaderOrFollower,
    RequestTimedOut,
    BrokerNotAvailable,
    ReplicaNotAvailable,
    MessageTooLarge,
    StaleControllerEpoch,
    OffsetMetadataTooLarge,
    NetworkException,
    CoordinatorLoadInProgress,
    CoordinatorNotAvailable,
    NotCoordinator,
    InvalidTopicException,
    RecordListTooLarge,
    NotEnoughReplicas,
    NotEnoughReplicasAfterAppend,
    InvalidRequiredAcks,
    IllegalGeneration,
    InconsistentGroupProtocol,
    InvalidGroupId,
    InvalidSessionTimeout,
    RebalanceInProgress,
    InvalidCommitOffsetSize,
    TopicAuthorizationFailed,
    GroupAuthorizationFailed,
    ClusterAuthorizationFailed,
    InvalidTimestamp,
    UnsupportedSaslMechanism,
    IllegalSaslState,
    UnsupportedVersion,
    TopicAlreadyExists,
    InvalidPartitions,
    InvalidReplicationFactor,
    InvalidReplicaAssignment,
    InvalidConfig,
    NotController,
    InvalidRequest,
    UnsupportedForMessageFormat,
    PolicyViolation,
    OutOfOrderSequenceNumber,
    DuplicateSequenceNumber,
    InvalidProducerEpoch,
    InvalidTransactionState,
    InvalidProducerIdMapping,
    InvalidTransactionTimeout,
    ConcurrentTransactions,
    TransactionCoordinatorFenced,
    TransactionalIdAuthorizationFailed,
    SecurityDisabled,
    OperationNotAttempted,
    KafkaStorageError,
    LogDirectoryNotFound,
    SaslAuthenticationFailed,
    UnknownProducerId,
    ReassignmentInProgress,
    DelegationTokenAuthDisabled,
    DelegationTokenNotFound,
    DelegationTokenOwnerMismatch,
    DelegationTokenRequestNotAllowed,
    DelegationTokenAuthorizationFailed,
    DelegationTokenExpired,
    InvalidPrincipalType,
    NonEmptyGroup,
    GroupIdNotFound,
    FetchSessionIdNotFound,
    InvalidFetchSessionEpoch,
    ListenerNotFound,
    TopicDeletionDisabled,
    FencedLeaderEpoch,
    UnknownLeaderEpoch,
    UnsupportedCompressionType,
    StaleBrokerEpoch,
    OffsetNotAvailable,
    MemberIdRequired,
    PreferredLeaderNotAvailable,
    GroupMaxSizeReached,
    FencedInstanceId,
    EligibleLeadersNotAvailable,
    ElectionNotNeeded,
    NoReassignmentInProgress,
    GroupSubscribedToTopic,
    InvalidRecord,
    UnstableOffsetCommit,
    ThrottlingQuotaExceeded,
    ProducerFenced,
    ResourceNotFound,
    DuplicateResource,
    UnacceptableCredential,
    InconsistentVoterSet,
    InvalidUpdateVersion,
    FeatureUpdateFailed,
    PrincipalDeserializationFailure,
    SnapshotNotFound,
    PositionOutOfRange,
    UnknownTopicId,
    DuplicateBrokerRegistration,
    BrokerIdNotRegistered,
    InconsistentTopicId,
    InconsistentClusterId,
    TransactionalIdNotFound,
    FetchSessionTopicIdError,
    InelligibleReplica,
    NewLeaderElected,
    OffsetMovedToTieredStorage,
    FencedMemberEpoch,
    UnreleasedInstanceId,
    UnsupportedAssignor,
    StaleMemberEpoch,
    MismatchedEndpointType,
    UnsupportedEndpointType,
    UnknownControllerId,
    UnknownSubscriptionId,
    TelemetryTooLarge,
    InvalidRegistration,
}

/// The status table as a function: code `0` maps to "no error" (`Some(None)`),
/// a mapped nonzero code to its entry, and everything else (the gaps and all
/// values outside `[-1, 119]`) to nothing.
pub open spec fn spec_status_from_code(v: i32) -> Option<Option<ErrorCode>> {
    if v == 0 {
        Some(None)
    } else if v == -1 {
        Some(Some(ErrorCode::UnknownServerError))
    } else if v == 1 {
        Some(Some(ErrorCode::OffsetOutOfRange))
    } else if v == 2 {
        Some(Some(ErrorCode::CorruptMessage))
    } else if v == 3 {
        Some(Some(ErrorCode::UnknownTopicOrPartition))
    } else if v == 4 {
        Some(Some(ErrorCode::InvalidFetchSize))
    } else if v == 5 {
        Some(Some(ErrorCode::LeaderNotAvailable))
    } else if v == 6 {
        Some(Some(ErrorCode::NotLeaderOrFollower))
    } else if v == 7 {
        Some(Some(ErrorCode::RequestTimedOut))
    } else if v == 8 {
        Some(Some(ErrorCode::BrokerNotAvailable))
    } else if v == 9 {
        Some(Some(ErrorCode::ReplicaNotAvailable))
    } else if v == 10 {
        Some(Some(ErrorCode::MessageTooLarge))
    } else if v == 11 {
        Some(Some(ErrorCode::StaleControllerEpoch))
    } else if v == 12 {
        Some(Some(ErrorCode::OffsetMetadataTooLarge))
    } else if v == 13 {
        Some(Some(ErrorCode::NetworkException))
    } else if v == 14 {
        Some(Some(ErrorCode::CoordinatorLoadInProgress))
    } else if v == 15 {
        Some(Some(ErrorCode::CoordinatorNotAvailable))
    } else if v == 16 {
        Some(Some(ErrorCode::NotCoordinator))
    } else if v == 17 {
        Some(Some(ErrorCode::InvalidTopicException))
    } else if v == 18 {
        Some(Some(ErrorCode::RecordListTooLarge))
    } else if v == 19 {
        Some(Some(ErrorCode::NotEnoughReplicas))
    } else if v == 20 {
        Some(Some(ErrorCode::NotEnoughReplicasAfterAppend))
    } else if v == 21 {
        Some(Some(ErrorCode::InvalidRequiredAcks))
    } else if v == 23 {
        Some(Some(ErrorCode::IllegalGeneration))
    } else if v == 24 {
        Some(Some(ErrorCode::InconsistentGroupProtocol))
    } else if v == 25 {
        Some(Some(ErrorCode::InvalidGroupId))
    } else if v == 26 {
        Some(Some(ErrorCode::InvalidSessionTimeout))
    } else if v == 27 {
        Some(Some(ErrorCode::RebalanceInProgress))
    } else if v == 28 {
        Some(Some(ErrorCode::InvalidCommitOffsetSize))
    } else if v == 29 {
        Some(Some(ErrorCode::TopicAuthorizationFailed))
    } else if v == 30 {
        Some(Some(ErrorCode::GroupAuthorizationFailed))
    } else if v == 31 {
        Some(Some(ErrorCode::ClusterAuthorizationFailed))
    } else if v == 32 {
        Some(Some(ErrorCode::InvalidTimestamp))
    } else if v == 33 {
        Some(Some(ErrorCode::UnsupportedSaslMechanism))
    } else if v == 34 {
        Some(Some(ErrorCode::IllegalSaslState))
    } else if v == 35 {
        Some(Some(ErrorCode::UnsupportedVersion))
    } else if v == 36 {
        Some(Some(ErrorCode::TopicAlreadyExists))
    } else if v == 37 {
        Some(Some(ErrorCode::InvalidPartitions))
    } else if v == 38 {
        Some(Some(ErrorCode::InvalidReplicationFactor))
    } else if v == 39 {
        Some(Some(ErrorCode::InvalidReplicaAssignment))
    } else if v == 40 {
        Some(Some(ErrorCode::InvalidConfig))
    } else if v == 41 {
        Some(Some(ErrorCode::NotController))
    } else if v == 42 {
        Some(Some(ErrorCode::InvalidRequest))
    } else if v == 43 {
        Some(Some(ErrorCode::UnsupportedForMessageFormat))
    } else if v == 44 {
        Some(Some(ErrorCode::PolicyViolation))
    } else if v == 45 {
        Some(Some(ErrorCode::OutOfOrderSequenceNumber))
    } else if v == 46 {
        Some(Some(ErrorCode::DuplicateSequenceNumber))
    } else if v == 47 {
        Some(Some(ErrorCode::InvalidProducerEpoch))
    } else if v == 48 {
        Some(Some(ErrorCode::InvalidTransactionState))
    } else if v == 49 {
        Some(Some(ErrorCode::InvalidProducerIdMapping))
    } else if v == 50 {
        Some(Some(ErrorCode::InvalidTransactionTimeout))
    } else if v == 51 {
        Some(Some(ErrorCode::ConcurrentTransactions))
    } else if v == 52 {
        Some(Some(ErrorCode::TransactionCoordinatorFenced))
    } else if v == 53 {
        Some(Some(ErrorCode::TransactionalIdAuthorizationFailed))
    } else if v == 54 {
        Some(Some(ErrorCode::SecurityDisabled))
    } else if v == 55 {
        Some(Some(ErrorCode::OperationNotAttempted))
    } else if v == 56 {
        Some(Some(ErrorCode::KafkaStorageError))
    } else if v == 57 {
        Some(Some(ErrorCode::LogDirectoryNotFound))
    } else if v == 58 {
        Some(Some(ErrorCode::SaslAuthenticationFailed))
    } else if v == 59 {
        Some(Some(ErrorCode::UnknownProducerId))
    } else if v == 60 {
        Some(Some(ErrorCode::ReassignmentInProgress))
    } else if v == 61 {
        Some(Some(ErrorCode::DelegationTokenAuthDisabled))
    } else if v == 62 {
        Some(Some(ErrorCode::DelegationTokenNotFound))
    } else if v == 63 {
        Some(Some(ErrorCode::DelegationTokenOwnerMismatch))
    } else if v == 64 {
        Some(Some(ErrorCode::DelegationTokenRequestNotAllowed))
    } else if v == 65 {
        Some(Some(ErrorCode::DelegationTokenAuthorizationFailed))
    } else if v == 66 {
        Some(Some(ErrorCode::DelegationTokenExpired))
    } else if v == 67 {
        Some(Some(ErrorCode::InvalidPrincipalType))
    } else if v == 68 {
        Some(Some(ErrorCode::NonEmptyGroup))
    } else if v == 69 {
        Some(Some(ErrorCode::GroupIdNotFound))
    } else if v == 70 {
        Some(Some(ErrorCode::FetchSessionIdNotFound))
    } else if v == 71 {
        Some(Some(ErrorCode::InvalidFetchSessionEpoch))
    } else if v == 72 {
        Some(Some(ErrorCode::ListenerNotFound))
    } else if v == 73 {
        Some(Some(ErrorCode::TopicDeletionDisabled))
    } else if v == 74 {
        Some(Some(ErrorCode::FencedLeaderEpoch))
    } else if v == 75 {
        Some(Some(ErrorCode::UnknownLeaderEpoch))
    } else if v == 76 {
        Some(Some(ErrorCode::UnsupportedCompressionType))
    } else if v == 77 {
        Some(Some(ErrorCode::StaleBrokerEpoch))
    } else if v == 78 {
        Some(Some(ErrorCode::OffsetNotAvailable))
    } else if v == 79 {
        Some(Some(ErrorCode::MemberIdRequired))
    } else if v == 80 {
        Some(Some(ErrorCode::PreferredLeaderNotAvailable))
    } else if v == 81 {
        Some(Some(ErrorCode::GroupMaxSizeReached))
    } else if v == 82 {
        Some(Some(ErrorCode::FencedInstanceId))
    } else if v == 83 {
        Some(Some(ErrorCode::EligibleLeadersNotAvailable))
    } else if v == 84 {
        Some(Some(ErrorCode::ElectionNotNeeded))
    } else if v == 85 {
        Some(Some(ErrorCode::NoReassignmentInProgress))
    } else if v == 86 {
        Some(Some(ErrorCode::GroupSubscribedToTopic))
    } else if v == 87 {
        Some(Some(ErrorCode::InvalidRecord))
    } else if v == 88 {
        Some(Some(ErrorCode::UnstableOffsetCommit))
    } else if v == 89 {
        Some(Some(ErrorCode::ThrottlingQuotaExceeded))
    } else if v == 90 {
        Some(Some(ErrorCode::ProducerFenced))
    } else if v == 91 {
        Some(Some(ErrorCode::ResourceNotFound))
    } else if v == 92 {
        Some(Some(ErrorCode::DuplicateResource))
    } else if v == 93 {
        Some(Some(ErrorCode::UnacceptableCredential))
    } else if v == 94 {
        Some(Some(ErrorCode::InconsistentVoterSet))
    } else if v == 95 {
        Some(Some(ErrorCode::InvalidUpdateVersion))
    } else if v == 96 {
        Some(Some(ErrorCode::FeatureUpdateFailed))
    } else if v == 97 {
        Some(Some(ErrorCode::PrincipalDeserializationFailure))
    } else if v == 98 {
        Some(Some(ErrorCode::SnapshotNotFound))
    } else if v == 99 {
        Some(Some(ErrorCode::PositionOutOfRange))
    } else if v == 100 {
        Some(Some(ErrorCode::UnknownTopicId))
    } else if v == 101 {
        Some(Some(ErrorCode::DuplicateBrokerRegistration))
    } else if v == 102 {
        Some(Some(ErrorCode::BrokerIdNotRegistered))
    } else if v == 103 {
        Some(Some(ErrorCode::InconsistentTopicId))
    } else if v == 104 {
        Some(Some(ErrorCode::InconsistentClusterId))
    } else if v == 105 {
        Some(Some(ErrorCode::TransactionalIdNotFound))
    } else if v == 106 {
        Some(Some(ErrorCode::FetchSessionTopicIdError))
    } else if v == 107 {
        Some(Some(ErrorCode::InelligibleReplica))
    } else if v == 108 {
        Some(Some(ErrorCode::NewLeaderElected))
    } else if v == 109 {
        Some(Some(ErrorCode::OffsetMovedToTieredStorage))
    } else if v == 110 {
        Some(Some(ErrorCode::FencedMemberEpoch))
    } else if v == 111 {
        Some(Some(ErrorCode::UnreleasedInstanceId))
    } else if v == 112 {
        Some(Some(ErrorCode::UnsupportedAssignor))
    } else if v == 113 {
        Some(Some(ErrorCode::StaleMemberEpoch))
    } else if v == 114 {
        Some(Some(ErrorCode::MismatchedEndpointType))
    } else if v == 115 {
        Some(Some(ErrorCode::UnsupportedEndpointType))
    } else if v == 116 {
        Some(Some(ErrorCode::UnknownControllerId))
    } else if v == 117 {
        Some(Some(ErrorCode::UnknownSubscriptionId))
    } else if v == 118 {
        Some(Some(ErrorCode::TelemetryTooLarge))
    } else if v == 119 {
        Some(Some(ErrorCode::InvalidRegistration))
    } else {
        None
    }
}

/// The numeric code of each status entry: the inverse of the table.
pub open spec fn spec_status_code(k: ErrorCode) -> i32 {
    match k {
        ErrorCode::UnknownServerError => -1i32,
        ErrorCode::OffsetOutOfRange => 1,
        ErrorCode::CorruptMessage => 2,
        ErrorCode::UnknownTopicOrPartition => 3,
        ErrorCode::InvalidFetchSize => 4,
        ErrorCode::LeaderNotAvailable => 5,
        ErrorCode::NotLeaderOrFollower => 6,
        ErrorCode::RequestTimedOut => 7,
        ErrorCode::BrokerNotAvailable => 8,
        ErrorCode::ReplicaNotAvailable => 9,
        ErrorCode::MessageTooLarge => 10,
        ErrorCode::StaleControllerEpoch => 11,
        ErrorCode::OffsetMetadataTooLarge => 12,
        ErrorCode::NetworkException => 13,
        ErrorCode::CoordinatorLoadInProgress => 14,
        ErrorCode::CoordinatorNotAvailable => 15,
        ErrorCode::NotCoordinator => 16,
        ErrorCode::InvalidTopicException => 17,
        ErrorCode::RecordListTooLarge => 18,
        ErrorCode::NotEnoughReplicas => 19,
        ErrorCode::NotEnoughReplicasAfterAppend => 20,
        ErrorCode::InvalidRequiredAcks => 21,
        ErrorCode::IllegalGeneration => 23,
        ErrorCode::InconsistentGroupProtocol => 24,
        ErrorCode::InvalidGroupId => 25,
        ErrorCode::InvalidSessionTimeout => 26,
        ErrorCode::RebalanceInProgress => 27,
        ErrorCode::InvalidCommitOffsetSize => 28,
        ErrorCode::TopicAuthorizationFailed => 29,
        ErrorCode::GroupAuthorizationFailed => 30,
        ErrorCode::ClusterAuthorizationFailed => 31,
        ErrorCode::InvalidTimestamp => 32,
        ErrorCode::UnsupportedSaslMechanism => 33,
        ErrorCode::IllegalSaslState => 34,
        ErrorCode::UnsupportedVersion => 35,
        ErrorCode::TopicAlreadyExists => 36,
        ErrorCode::InvalidPartitions => 37,
        ErrorCode::InvalidReplicationFactor => 38,
        ErrorCode::InvalidReplicaAssignment => 39,
        ErrorCode::InvalidConfig => 40,
        ErrorCode::NotController => 41,
        ErrorCode::InvalidRequest => 42,
        ErrorCode::UnsupportedForMessageFormat => 43,
        ErrorCode::PolicyViolation => 44,
        ErrorCode::OutOfOrderSequenceNumber => 45,
        ErrorCode::DuplicateSequenceNumber => 46,
        ErrorCode::InvalidProducerEpoch => 47,
        ErrorCode::InvalidTransactionState => 48,
        ErrorCode::InvalidProducerIdMapping => 49,
        ErrorCode::InvalidTransactionTimeout => 50,
        ErrorCode::ConcurrentTransactions => 51,
        ErrorCode::TransactionCoordinatorFenced => 52,
        ErrorCode::TransactionalIdAuthorizationFailed => 53,
        ErrorCode::SecurityDisabled => 54,
        ErrorCode::OperationNotAttempted => 55,
        ErrorCode::KafkaStorageError => 56,
        ErrorCode::LogDirectoryNotFound => 57,
        ErrorCode::SaslAuthenticationFailed => 58,
        ErrorCode::UnknownProducerId => 59,
        ErrorCode::ReassignmentInProgress => 60,
        ErrorCode::DelegationTokenAuthDisabled => 61,
        ErrorCode::DelegationTokenNotFound => 62,
        ErrorCode::DelegationTokenOwnerMismatch => 63,
        ErrorCode::DelegationTokenRequestNotAllowed => 64,
        ErrorCode::DelegationTokenAuthorizationFailed => 65,
        ErrorCode::DelegationTokenExpired => 66,
        ErrorCode::InvalidPrincipalType => 67,
        ErrorCode::NonEmptyGroup => 68,
        ErrorCode::GroupIdNotFound => 69,
        ErrorCode::FetchSessionIdNotFound => 70,
        ErrorCode::InvalidFetchSessionEpoch => 71,
        ErrorCode::ListenerNotFound => 72,
        ErrorCode::TopicDeletionDisabled => 73,
        ErrorCode::FencedLeaderEpoch => 74,
        ErrorCode::UnknownLeaderEpoch => 75,
        ErrorCode::UnsupportedCompressionType => 76,
        ErrorCode::StaleBrokerEpoch => 77,
        ErrorCode::OffsetNotAvailable => 78,
        ErrorCode::MemberIdRequired => 79,
        ErrorCode::PreferredLeaderNotAvailable => 80,
        ErrorCode::GroupMaxSizeReached => 81,
        ErrorCode::FencedInstanceId => 82,
        ErrorCode::EligibleLeadersNotAvailable => 83,
        ErrorCode::ElectionNotNeeded => 84,
        ErrorCode::NoReassignmentInProgress => 85,
        ErrorCode::GroupSubscribedToTopic => 86,
        ErrorCode::InvalidRecord => 87,
        ErrorCode::UnstableOffsetCommit => 88,
        ErrorCode::ThrottlingQuotaExceeded => 89,
        ErrorCode::ProducerFenced => 90,
        ErrorCode::ResourceNotFound => 91,
        ErrorCode::DuplicateResource => 92,
        ErrorCode::UnacceptableCredential => 93,
        ErrorCode::InconsistentVoterSet => 94,
        ErrorCode::InvalidUpdateVersion => 95,
        ErrorCode::FeatureUpdateFailed => 96,
        ErrorCode::PrincipalDeserializationFailure => 97,
        ErrorCode::SnapshotNotFound => 98,
        ErrorCode::PositionOutOfRange => 99,
        ErrorCode::UnknownTopicId => 100,
        ErrorCode::DuplicateBrokerRegistration => 101,
        ErrorCode::BrokerIdNotRegistered => 102,
        ErrorCode::InconsistentTopicId => 103,
        ErrorCode::InconsistentClusterId => 104,
        ErrorCode::TransactionalIdNotFound => 105,
        ErrorCode::FetchSessionTopicIdError => 106,
        ErrorCode::InelligibleReplica => 107,
        ErrorCode::NewLeaderElected => 108,
        ErrorCode::OffsetMovedToTieredStorage => 109,
        ErrorCode::FencedMemberEpoch => 110,
        ErrorCode::UnreleasedInstanceId => 111,
        ErrorCode::UnsupportedAssignor => 112,
        ErrorCode::StaleMemberEpoch => 113,
        ErrorCode::MismatchedEndpointType => 114,
        ErrorCode::UnsupportedEndpointType => 115,
        ErrorCode::UnknownControllerId => 116,
        ErrorCode::UnknownSubscriptionId => 117,
        ErrorCode::TelemetryTooLarge => 118,
        ErrorCode::InvalidRegistration => 119,
    }
}

/// The fixed retriability classification of each entry.
pub open spec fn spec_is_retriable(k: ErrorCode) -> bool {
    match k {
        ErrorCode::UnknownServerError => false,
        ErrorCode::OffsetOutOfRange => false,
        ErrorCode::CorruptMessage => true,
        ErrorCode::UnknownTopicOrPartition => true,
        ErrorCode::InvalidFetchSize => false,
        ErrorCode::LeaderNotAvailable => true,
        ErrorCode::NotLeaderOrFollower => true,
        ErrorCode::RequestTimedOut => true,
        ErrorCode::BrokerNotAvailable => false,
        ErrorCode::ReplicaNotAvailable => true,
        ErrorCode::MessageTooLarge => false,
        ErrorCode::StaleControllerEpoch => false,
        ErrorCode::OffsetMetadataTooLarge => false,
        ErrorCode::NetworkException => true,
        ErrorCode::CoordinatorLoadInProgress => true,
        ErrorCode::CoordinatorNotAvailable => true,
        ErrorCode::NotCoordinator => true,
        ErrorCode::InvalidTopicException => false,
        ErrorCode::RecordListTooLarge => false,
        ErrorCode::NotEnoughReplicas => true,
        ErrorCode::NotEnoughReplicasAfterAppend => true,
        ErrorCode::InvalidRequiredAcks => false,
        ErrorCode::IllegalGeneration => false,
        ErrorCode::InconsistentGroupProtocol => false,
        ErrorCode::InvalidGroupId => false,
        ErrorCode::InvalidSessionTimeout => false,
        ErrorCode::RebalanceInProgress => false,
        ErrorCode::InvalidCommitOffsetSize => false,
        ErrorCode::TopicAuthorizationFailed => false,
        ErrorCode::GroupAuthorizationFailed => false,
        ErrorCode::ClusterAuthorizationFailed => false,
        ErrorCode::InvalidTimestamp => false,
        ErrorCode::UnsupportedSaslMechanism => false,
        ErrorCode::IllegalSaslState => false,
        ErrorCode::UnsupportedVersion => false,
        ErrorCode::TopicAlreadyExists => false,
        ErrorCode::InvalidPartitions => false,
        ErrorCode::InvalidReplicationFactor => false,
        ErrorCode::InvalidReplicaAssignment => false,
        ErrorCode::InvalidConfig => false,
        ErrorCode::NotController => true,
        ErrorCode::InvalidRequest => false,
        ErrorCode::UnsupportedForMessageFormat => false,
        ErrorCode::PolicyViolation => false,
        ErrorCode::OutOfOrderSequenceNumber => false,
        ErrorCode::DuplicateSequenceNumber => false,
        ErrorCode::InvalidProducerEpoch => false,
        ErrorCode::InvalidTransactionState => false,
        ErrorCode::InvalidProducerIdMapping => false,
        ErrorCode::InvalidTransactionTimeout => false,
        ErrorCode::ConcurrentTransactions => true,
        ErrorCode::TransactionCoordinatorFenced => false,
        ErrorCode::TransactionalIdAuthorizationFailed => false,
        ErrorCode::SecurityDisabled => false,
        ErrorCode::OperationNotAttempted => false,
        ErrorCode::KafkaStorageError => true,
        ErrorCode::LogDirectoryNotFound => false,
        ErrorCode::SaslAuthenticationFailed => false,
        ErrorCode::UnknownProducerId => false,
        ErrorCode::ReassignmentInProgress => false,
        ErrorCode::DelegationTokenAuthDisabled => false,
        ErrorCode::DelegationTokenNotFound => false,
        ErrorCode::DelegationTokenOwnerMismatch => false,
        ErrorCode::DelegationTokenRequestNotAllowed => false,
        ErrorCode::DelegationTokenAuthorizationFailed => false,
        ErrorCode::DelegationTokenExpired => false,
        ErrorCode::InvalidPrincipalType => false,
        ErrorCode::NonEmptyGroup => false,
        ErrorCode::GroupIdNotFound => false,
        ErrorCode::FetchSessionIdNotFound => true,
        ErrorCode::InvalidFetchSessionEpoch => true,
        ErrorCode::ListenerNotFound => true,
        ErrorCode::TopicDeletionDisabled => false,
        ErrorCode::FencedLeaderEpoch => true,
        ErrorCode::UnknownLeaderEpoch => true,
        ErrorCode::UnsupportedCompressionType => false,
        ErrorCode::StaleBrokerEpoch => false,
        ErrorCode::OffsetNotAvailable => true,
        ErrorCode::MemberIdRequired => false,
        ErrorCode::PreferredLeaderNotAvailable => true,
        ErrorCode::GroupMaxSizeReached => false,
        ErrorCode::FencedInstanceId => false,
        ErrorCode::EligibleLeadersNotAvailable => true,
        ErrorCode::ElectionNotNeeded => true,
        ErrorCode::NoReassignmentInProgress => false,
        ErrorCode::GroupSubscribedToTopic => false,
        ErrorCode::InvalidRecord => false,
        ErrorCode::UnstableOffsetCommit => true,
        ErrorCode::ThrottlingQuotaExceeded => true,
        ErrorCode::ProducerFenced => false,
        ErrorCode::ResourceNotFound => false,
        ErrorCode::DuplicateResource => false,
        ErrorCode::UnacceptableCredential => false,
        ErrorCode::InconsistentVoterSet => false,
        ErrorCode::InvalidUpdateVersion => false,
        ErrorCode::FeatureUpdateFailed => false,
        ErrorCode::PrincipalDeserializationFailure => false,
        ErrorCode::SnapshotNotFound => false,
        ErrorCode::PositionOutOfRange => false,
        ErrorCode::UnknownTopicId => true,
        ErrorCode::DuplicateBrokerRegistration => false,
        ErrorCode::BrokerIdNotRegistered => false,
        ErrorCode::InconsistentTopicId => true,
        ErrorCode::InconsistentClusterId => false,
        ErrorCode::TransactionalIdNotFound => false,
        ErrorCode::FetchSessionTopicIdError => true,
        ErrorCode::InelligibleReplica => false,
        ErrorCode::NewLeaderElected => false,
        ErrorCode::OffsetMovedToTieredStorage => false,
        ErrorCode::FencedMemberEpoch => false,
        ErrorCode::UnreleasedInstanceId => false,
        ErrorCode::UnsupportedAssignor => false,
        ErrorCode::StaleMemberEpoch => false,
        ErrorCode::MismatchedEndpointType => false,
        ErrorCode::UnsupportedEndpointType => false,
        ErrorCode::UnknownControllerId => false,
        ErrorCode::UnknownSubscriptionId => false,
        ErrorCode::TelemetryTooLarge => false,
        ErrorCode::InvalidRegistration => false,
    }
}

impl ErrorCode {
    /// Resolves a status code against the table. Code `0` means "no error"
    /// and yields absence; a value in a documented gap or outside the table's
    /// range fails with `InvalidStatusCode`.
    pub fn parse(value: i32) -> (r: Result<Option<ErrorCode>, Error>)
        ensures
            match r {
                Ok(o) => spec_status_from_code(value) == Some(o),
                Err(e) => spec_status_from_code(value) is None && e == Error::InvalidStatusCode(
                    value,
                ),
            },
    {
        match value {
            0 => Ok(None),
            -1 => Ok(Some(ErrorCode::UnknownServerError)),
            1 => Ok(Some(ErrorCode::OffsetOutOfRange)),
            2 => Ok(Some(ErrorCode::CorruptMessage)),
            3 => Ok(Some(ErrorCode::UnknownTopicOrPartition)),
            4 => Ok(Some(ErrorCode::InvalidFetchSize)),
            5 => Ok(Some(ErrorCode::LeaderNotAvailable)),
            6 => Ok(Some(ErrorCode::NotLeaderOrFollower)),
            7 => Ok(Some(ErrorCode::RequestTimedOut)),
            8 => Ok(Some(ErrorCode::BrokerNotAvailable)),
            9 => Ok(Some(ErrorCode::ReplicaNotAvailable)),
            10 => Ok(Some(ErrorCode::MessageTooLarge)),
            11 => Ok(Some(ErrorCode::StaleControllerEpoch)),
            12 => Ok(Some(ErrorCode::OffsetMetadataTooLarge)),
            13 => Ok(Some(ErrorCode::NetworkException)),
            14 => Ok(Some(ErrorCode::CoordinatorLoadInProgress)),
            15 => Ok(Some(ErrorCode::CoordinatorNotAvailable)),
            16 => Ok(Some(ErrorCode::NotCoordinator)),
            17 => Ok(Some(ErrorCode::InvalidTopicException)),
            18 => Ok(Some(ErrorCode::RecordListTooLarge)),
            19 => Ok(Some(ErrorCode::NotEnoughReplicas)),
            20 => Ok(Some(ErrorCode::NotEnoughReplicasAfterAppend)),
            21 => Ok(Some(ErrorCode::InvalidRequiredAcks)),
            23 => Ok(Some(ErrorCode::IllegalGeneration)),
            24 => Ok(Some(ErrorCode::InconsistentGroupProtocol)),
            25 => Ok(Some(ErrorCode::InvalidGroupId)),
            26 => Ok(Some(ErrorCode::InvalidSessionTimeout)),
            27 => Ok(Some(ErrorCode::RebalanceInProgress)),
            28 => Ok(Some(ErrorCode::InvalidCommitOffsetSize)),
            29 => Ok(Some(ErrorCode::TopicAuthorizationFailed)),
            30 => Ok(Some(ErrorCode::GroupAuthorizationFailed)),
            31 => Ok(Some(ErrorCode::ClusterAuthorizationFailed)),
            32 => Ok(Some(ErrorCode::InvalidTimestamp)),
            33 => Ok(Some(ErrorCode::UnsupportedSaslMechanism)),
            34 => Ok(Some(ErrorCode::IllegalSaslState)),
            35 => Ok(Some(ErrorCode::UnsupportedVersion)),
            36 => Ok(Some(ErrorCode::TopicAlreadyExists)),
            37 => Ok(Some(ErrorCode::InvalidPartitions)),
            38 => Ok(Some(ErrorCode::InvalidReplicationFactor)),
            39 => Ok(Some(ErrorCode::InvalidReplicaAssignment)),
            40 => Ok(Some(ErrorCode::InvalidConfig)),
            41 => Ok(Some(ErrorCode::NotController)),
            42 => Ok(Some(ErrorCode::InvalidRequest)),
            43 => Ok(Some(ErrorCode::UnsupportedForMessageFormat)),
            44 => Ok(Some(ErrorCode::PolicyViolation)),
            45 => Ok(Some(ErrorCode::OutOfOrderSequenceNumber)),
            46 => Ok(Some(ErrorCode::DuplicateSequenceNumber)),
            47 => Ok(Some(ErrorCode::InvalidProducerEpoch)),
            48 => Ok(Some(ErrorCode::InvalidTransactionState)),
            49 => Ok(Some(ErrorCode::InvalidProducerIdMapping)),
            50 => Ok(Some(ErrorCode::InvalidTransactionTimeout)),
            51 => Ok(Some(ErrorCode::ConcurrentTransactions)),
            52 => Ok(Some(ErrorCode::TransactionCoordinatorFenced)),
            53 => Ok(Some(ErrorCode::TransactionalIdAuthorizationFailed)),
            54 => Ok(Some(ErrorCode::SecurityDisabled)),
            55 => Ok(Some(ErrorCode::OperationNotAttempted)),
            56 => Ok(Some(ErrorCode::KafkaStorageError)),
            57 => Ok(Some(ErrorCode::LogDirectoryNotFound)),
            58 => Ok(Some(ErrorCode::SaslAuthenticationFailed)),
            59 => Ok(Some(ErrorCode::UnknownProducerId)),
            60 => Ok(Some(ErrorCode::ReassignmentInProgress)),
            61 => Ok(Some(ErrorCode::DelegationTokenAuthDisabled)),
            62 => Ok(Some(ErrorCode::DelegationTokenNotFound)),
            63 => Ok(Some(ErrorCode::DelegationTokenOwnerMismatch)),
            64 => Ok(Some(ErrorCode::DelegationTokenRequestNotAllowed)),
            65 => Ok(Some(ErrorCode::DelegationTokenAuthorizationFailed)),
            66 => Ok(Some(ErrorCode::DelegationTokenExpired)),
            67 => Ok(Some(ErrorCode::InvalidPrincipalType)),
            68 => Ok(Some(ErrorCode::NonEmptyGroup)),
            69 => Ok(Some(ErrorCode::GroupIdNotFound)),
            70 => Ok(Some(ErrorCode::FetchSessionIdNotFound)),
            71 => Ok(Some(ErrorCode::InvalidFetchSessionEpoch)),
            72 => Ok(Some(ErrorCode::ListenerNotFound)),
            73 => Ok(Some(ErrorCode::TopicDeletionDisabled)),
            74 => Ok(Some(ErrorCode::FencedLeaderEpoch)),
            75 => Ok(Some(ErrorCode::UnknownLeaderEpoch)),
            76 => Ok(Some(ErrorCode::UnsupportedCompressionType)),
            77 => Ok(Some(ErrorCode::StaleBrokerEpoch)),
            78 => Ok(Some(ErrorCode::OffsetNotAvailable)),
            79 => Ok(Some(ErrorCode::MemberIdRequired)),
            80 => Ok(Some(ErrorCode::PreferredLeaderNotAvailable)),
            81 => Ok(Some(ErrorCode::GroupMaxSizeReached)),
            82 => Ok(Some(ErrorCode::FencedInstanceId)),
            83 => Ok(Some(ErrorCode::EligibleLeadersNotAvailable)),
            84 => Ok(Some(ErrorCode::ElectionNotNeeded)),
            85 => Ok(Some(ErrorCode::NoReassignmentInProgress)),
            86 => Ok(Some(ErrorCode::GroupSubscribedToTopic)),
            87 => Ok(Some(ErrorCode::InvalidRecord)),
            88 => Ok(Some(ErrorCode::UnstableOffsetCommit)),
            89 => Ok(Some(ErrorCode::ThrottlingQuotaExceeded)),
            90 => Ok(Some(ErrorCode::ProducerFenced)),
            91 => Ok(Some(ErrorCode::ResourceNotFound)),
            92 => Ok(Some(ErrorCode::DuplicateResource)),
            93 => Ok(Some(ErrorCode::UnacceptableCredential)),
            94 => Ok(Some(ErrorCode::InconsistentVoterSet)),
            95 => Ok(Some(ErrorCode::InvalidUpdateVersion)),
            96 => Ok(Some(ErrorCode::FeatureUpdateFailed)),
            97 => Ok(Some(ErrorCode::PrincipalDeserializationFailure)),
            98 => Ok(Some(ErrorCode::SnapshotNotFound)),
            99 => Ok(Some(ErrorCode::PositionOutOfRange)),
            100 => Ok(Some(ErrorCode::UnknownTopicId)),
            101 => Ok(Some(ErrorCode::DuplicateBrokerRegistration)),
            102 => Ok(Some(ErrorCode::BrokerIdNotRegistered)),
            103 => Ok(Some(ErrorCode::InconsistentTopicId)),
            104 => Ok(Some(ErrorCode::InconsistentClusterId)),
            105 => Ok(Some(ErrorCode::TransactionalIdNotFound)),
            106 => Ok(Some(ErrorCode::FetchSessionTopicIdError)),
            107 => Ok(Some(ErrorCode::InelligibleReplica)),
            108 => Ok(Some(ErrorCode::NewLeaderElected)),
            109 => Ok(Some(ErrorCode::OffsetMovedToTieredStorage)),
            110 => Ok(Some(ErrorCode::FencedMemberEpoch)),
            111 => Ok(Some(ErrorCode::UnreleasedInstanceId)),
            112 => Ok(Some(ErrorCode::UnsupportedAssignor)),
            113 => Ok(Some(ErrorCode::StaleMemberEpoch)),
            114 => Ok(Some(ErrorCode::MismatchedEndpointType)),
            115 => Ok(Some(ErrorCode::UnsupportedEndpointType)),
            116 => Ok(Some(ErrorCode::UnknownControllerId)),
            117 => Ok(Some(ErrorCode::UnknownSubscriptionId)),
            118 => Ok(Some(ErrorCode::TelemetryTooLarge)),
            119 => Ok(Some(ErrorCode::InvalidRegistration)),
            _ => Err(Error::InvalidStatusCode(value)),
        }
    }

    /// The numeric code this entry takes on the wire.
    pub fn code(self) -> (r: i32)
        ensures
            r == spec_status_code(self),
            -1 <= r <= 119,
    {
        match self {
            ErrorCode::UnknownServerError => -1i32,
            ErrorCode::OffsetOutOfRange => 1,
            ErrorCode::CorruptMessage => 2,
            ErrorCode::UnknownTopicOrPartition => 3,
            ErrorCode::InvalidFetchSize => 4,
            ErrorCode::LeaderNotAvailable => 5,
            ErrorCode::NotLeaderOrFollower => 6,
            ErrorCode::RequestTimedOut => 7,
            ErrorCode::BrokerNotAvailable => 8,
            ErrorCode::ReplicaNotAvailable => 9,
            ErrorCode::MessageTooLarge => 10,
            ErrorCode::StaleControllerEpoch => 11,
            ErrorCode::OffsetMetadataTooLarge => 12,
            ErrorCode::NetworkException => 13,
            ErrorCode::CoordinatorLoadInProgress => 14,
            ErrorCode::CoordinatorNotAvailable => 15,
            ErrorCode::NotCoordinator => 16,
            ErrorCode::InvalidTopicException => 17,
            ErrorCode::RecordListTooLarge => 18,
            ErrorCode::NotEnoughReplicas => 19,
            ErrorCode::NotEnoughReplicasAfterAppend => 20,
            ErrorCode::InvalidRequiredAcks => 21,
            ErrorCode::IllegalGeneration => 23,
            ErrorCode::InconsistentGroupProtocol => 24,
            ErrorCode::InvalidGroupId => 25,
            ErrorCode::InvalidSessionTimeout => 26,
            ErrorCode::RebalanceInProgress => 27,
            ErrorCode::InvalidCommitOffsetSize => 28,
            ErrorCode::TopicAuthorizationFailed => 29,
            ErrorCode::GroupAuthorizationFailed => 30,
            ErrorCode::ClusterAuthorizationFailed => 31,
            ErrorCode::InvalidTimestamp => 32,
            ErrorCode::UnsupportedSaslMechanism => 33,
            ErrorCode::IllegalSaslState => 34,
            ErrorCode::UnsupportedVersion => 35,
            ErrorCode::TopicAlreadyExists => 36,
            ErrorCode::InvalidPartitions => 37,
            ErrorCode::InvalidReplicationFactor => 38,
            ErrorCode::InvalidReplicaAssignment => 39,
            ErrorCode::InvalidConfig => 40,
            ErrorCode::NotController => 41,
            ErrorCode::InvalidRequest => 42,
            ErrorCode::UnsupportedForMessageFormat => 43,
            ErrorCode::PolicyViolation => 44,
            ErrorCode::OutOfOrderSequenceNumber => 45,
            ErrorCode::DuplicateSequenceNumber => 46,
            ErrorCode::InvalidProducerEpoch => 47,
            ErrorCode::InvalidTransactionState => 48,
            ErrorCode::InvalidProducerIdMapping => 49,
            ErrorCode::InvalidTransactionTimeout => 50,
            ErrorCode::ConcurrentTransactions => 51,
            ErrorCode::TransactionCoordinatorFenced => 52,
            ErrorCode::TransactionalIdAuthorizationFailed => 53,
            ErrorCode::SecurityDisabled => 54,
            ErrorCode::OperationNotAttempted => 55,
            ErrorCode::KafkaStorageError => 56,
            ErrorCode::LogDirectoryNotFound => 57,
            ErrorCode::SaslAuthenticationFailed => 58,
            ErrorCode::UnknownProducerId => 59,
            ErrorCode::ReassignmentInProgress => 60,
            ErrorCode::DelegationTokenAuthDisabled => 61,
            ErrorCode::DelegationTokenNotFound => 62,
            ErrorCode::DelegationTokenOwnerMismatch => 63,
            ErrorCode::DelegationTokenRequestNotAllowed => 64,
            ErrorCode::DelegationTokenAuthorizationFailed => 65,
            ErrorCode::DelegationTokenExpired => 66,
            ErrorCode::InvalidPrincipalType => 67,
            ErrorCode::NonEmptyGroup => 68,
            ErrorCode::GroupIdNotFound => 69,
            ErrorCode::FetchSessionIdNotFound => 70,
            ErrorCode::InvalidFetchSessionEpoch => 71,
            ErrorCode::ListenerNotFound => 72,
            ErrorCode::TopicDeletionDisabled => 73,
            ErrorCode::FencedLeaderEpoch => 74,
            ErrorCode::UnknownLeaderEpoch => 75,
            ErrorCode::UnsupportedCompressionType => 76,
            ErrorCode::StaleBrokerEpoch => 77,
            ErrorCode::OffsetNotAvailable => 78,
            ErrorCode::MemberIdRequired => 79,
            ErrorCode::PreferredLeaderNotAvailable => 80,
            ErrorCode::GroupMaxSizeReached => 81,
            ErrorCode::FencedInstanceId => 82,
            ErrorCode::EligibleLeadersNotAvailable => 83,
            ErrorCode::ElectionNotNeeded => 84,
            ErrorCode::NoReassignmentInProgress => 85,
            ErrorCode::GroupSubscribedToTopic => 86,
            ErrorCode::InvalidRecord => 87,
            ErrorCode::UnstableOffsetCommit => 88,
            ErrorCode::ThrottlingQuotaExceeded => 89,
            ErrorCode::ProducerFenced => 90,
            ErrorCode::ResourceNotFound => 91,
            ErrorCode::DuplicateResource => 92,
            ErrorCode::UnacceptableCredential => 93,
            ErrorCode::InconsistentVoterSet => 94,
            ErrorCode::InvalidUpdateVersion => 95,
            ErrorCode::FeatureUpdateFailed => 96,
            ErrorCode::PrincipalDeserializationFailure => 97,
            ErrorCode::SnapshotNotFound => 98,
            ErrorCode::PositionOutOfRange => 99,
            ErrorCode::UnknownTopicId => 100,
            ErrorCode::DuplicateBrokerRegistration => 101,
            ErrorCode::BrokerIdNotRegistered => 102,
            ErrorCode::InconsistentTopicId => 103,
            ErrorCode::InconsistentClusterId => 104,
            ErrorCode::TransactionalIdNotFound => 105,
            ErrorCode::FetchSessionTopicIdError => 106,
            ErrorCode::InelligibleReplica => 107,
            ErrorCode::NewLeaderElected => 108,
            ErrorCode::OffsetMovedToTieredStorage => 109,
            ErrorCode::FencedMemberEpoch => 110,
            ErrorCode::UnreleasedInstanceId => 111,
            ErrorCode::UnsupportedAssignor => 112,
            ErrorCode::StaleMemberEpoch => 113,
            ErrorCode::MismatchedEndpointType => 114,
            ErrorCode::UnsupportedEndpointType => 115,
            ErrorCode::UnknownControllerId => 116,
            ErrorCode::UnknownSubscriptionId => 117,
            ErrorCode::TelemetryTooLarge => 118,
            ErrorCode::InvalidRegistration => 119,
        }
    }

    /// Whether the operation this status is associated with is retriable.
    pub fn is_retriable(&self) -> (r: bool)
        ensures
            r == spec_is_retriable(*self),
    {
        match self {
            ErrorCode::UnknownServerError => false,
            ErrorCode::OffsetOutOfRange => false,
            ErrorCode::CorruptMessage => true,
            ErrorCode::UnknownTopicOrPartition => true,
            ErrorCode::InvalidFetchSize => false,
            ErrorCode::LeaderNotAvailable => true,
            ErrorCode::NotLeaderOrFollower => true,
            ErrorCode::RequestTimedOut => true,
            ErrorCode::BrokerNotAvailable => false,
            ErrorCode::ReplicaNotAvailable => true,
            ErrorCode::MessageTooLarge => false,
            ErrorCode::StaleControllerEpoch => false,
            ErrorCode::OffsetMetadataTooLarge => false,
            ErrorCode::NetworkException => true,
            ErrorCode::CoordinatorLoadInProgress => true,
            ErrorCode::CoordinatorNotAvailable => true,
            ErrorCode::NotCoordinator => true,
            ErrorCode::InvalidTopicException => false,
            ErrorCode::RecordListTooLarge => false,
            ErrorCode::NotEnoughReplicas => true,
            ErrorCode::NotEnoughReplicasAfterAppend => true,
            ErrorCode::InvalidRequiredAcks => false,
            ErrorCode::IllegalGeneration => false,
            ErrorCode::InconsistentGroupProtocol => false,
            ErrorCode::InvalidGroupId => false,
            ErrorCode::InvalidSessionTimeout => false,
            ErrorCode::RebalanceInProgress => false,
            ErrorCode::InvalidCommitOffsetSize => false,
            ErrorCode::TopicAuthorizationFailed => false,
            ErrorCode::GroupAuthorizationFailed => false,
            ErrorCode::ClusterAuthorizationFailed => false,
            ErrorCode::InvalidTimestamp => false,
            ErrorCode::UnsupportedSaslMechanism => false,
            ErrorCode::IllegalSaslState => false,
            ErrorCode::UnsupportedVersion => false,
            ErrorCode::TopicAlreadyExists => false,
            ErrorCode::InvalidPartitions => false,
            ErrorCode::InvalidReplicationFactor => false,
            ErrorCode::InvalidReplicaAssignment => false,
            ErrorCode::InvalidConfig => false,
            ErrorCode::NotController => true,
            ErrorCode::InvalidRequest => false,
            ErrorCode::UnsupportedForMessageFormat => false,
            ErrorCode::PolicyViolation => false,
            ErrorCode::OutOfOrderSequenceNumber => false,
            ErrorCode::DuplicateSequenceNumber => false,
            ErrorCode::InvalidProducerEpoch => false,
            ErrorCode::InvalidTransactionState => false,
            ErrorCode::InvalidProducerIdMapping => false,
            ErrorCode::InvalidTransactionTimeout => false,
            ErrorCode::ConcurrentTransactions => true,
            ErrorCode::TransactionCoordinatorFenced => false,
            ErrorCode::TransactionalIdAuthorizationFailed => false,
            ErrorCode::SecurityDisabled => false,
            ErrorCode::OperationNotAttempted => false,
            ErrorCode::KafkaStorageError => true,
            ErrorCode::LogDirectoryNotFound => false,
            ErrorCode::SaslAuthenticationFailed => false,
            ErrorCode::UnknownProducerId => false,
            ErrorCode::ReassignmentInProgress => false,
            ErrorCode::DelegationTokenAuthDisabled => false,
            ErrorCode::DelegationTokenNotFound => false,
            ErrorCode::DelegationTokenOwnerMismatch => false,
            ErrorCode::DelegationTokenRequestNotAllowed => false,
            ErrorCode::DelegationTokenAuthorizationFailed => false,
            ErrorCode::DelegationTokenExpired => false,
            ErrorCode::InvalidPrincipalType => false,
            ErrorCode::NonEmptyGroup => false,
            ErrorCode::GroupIdNotFound => false,
            ErrorCode::FetchSessionIdNotFound => true,
            ErrorCode::InvalidFetchSessionEpoch => true,
            ErrorCode::ListenerNotFound => true,
            ErrorCode::TopicDeletionDisabled => false,
            ErrorCode::FencedLeaderEpoch => true,
            ErrorCode::UnknownLeaderEpoch => true,
            ErrorCode::UnsupportedCompressionType => false,
            ErrorCode::StaleBrokerEpoch => false,
            ErrorCode::OffsetNotAvailable => true,
            ErrorCode::MemberIdRequired => false,
            ErrorCode::PreferredLeaderNotAvailable => true,
            ErrorCode::GroupMaxSizeReached => false,
            ErrorCode::FencedInstanceId => false,
            ErrorCode::EligibleLeadersNotAvailable => true,
            ErrorCode::ElectionNotNeeded => true,
            ErrorCode::NoReassignmentInProgress => false,
            ErrorCode::GroupSubscribedToTopic => false,
            ErrorCode::InvalidRecord => false,
            ErrorCode::UnstableOffsetCommit => true,
            ErrorCode::ThrottlingQuotaExceeded => true,
            ErrorCode::ProducerFenced => false,
            ErrorCode::ResourceNotFound => false,
            ErrorCode::DuplicateResource => false,
            ErrorCode::UnacceptableCredential => false,
            ErrorCode::InconsistentVoterSet => false,
            ErrorCode::InvalidUpdateVersion => false,
            ErrorCode::FeatureUpdateFailed => false,
            ErrorCode::PrincipalDeserializationFailure => false,
            ErrorCode::SnapshotNotFound => false,
            ErrorCode::PositionOutOfRange => false,
            ErrorCode::UnknownTopicId => true,
            ErrorCode::DuplicateBrokerRegistration => false,
            ErrorCode::BrokerIdNotRegistered => false,
            ErrorCode::InconsistentTopicId => true,
            ErrorCode::InconsistentClusterId => false,
            ErrorCode::TransactionalIdNotFound => false,
            ErrorCode::FetchSessionTopicIdError => true,
            ErrorCode::InelligibleReplica => false,
            ErrorCode::NewLeaderElected => false,
            ErrorCode::OffsetMovedToTieredStorage => false,
            ErrorCode::FencedMemberEpoch => false,
            ErrorCode::UnreleasedInstanceId => false,
            ErrorCode::UnsupportedAssignor => false,
            ErrorCode::StaleMemberEpoch => false,
            ErrorCode::MismatchedEndpointType => false,
            ErrorCode::UnsupportedEndpointType => false,
            ErrorCode::UnknownControllerId => false,
            ErrorCode::UnknownSubscriptionId => false,
            ErrorCode::TelemetryTooLarge => false,
            ErrorCode::InvalidRegistration => false,
        }
    }
}

/// Every entry's code lies in the table's numeric range.
pub proof fn lemma_status_code_range(k: ErrorCode)
    ensures
        -1 <= spec_status_code(k) <= 119,
{
}

/// The status table is a bijection between mapped nonzero codes and entries:
/// resolving an entry's own code returns that entry, and a successfully
/// resolved code is the code of what it resolved to (with `0` reserved for
/// "no error").
pub proof fn lemma_status_table_bijective()
    ensures
        forall|k: ErrorCode| spec_status_from_code(#[trigger] spec_status_code(k)) == Some(
            Some(k),
        ),
        forall|v: i32| #[trigger] spec_status_from_code(v) matches Some(Some(k))
            ==> spec_status_code(k) == v,
        spec_status_from_code(0) == Some(None::<ErrorCode>),
{
}

} // verus!
