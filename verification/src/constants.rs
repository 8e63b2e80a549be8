//! Known section tags and packed format fields of the wire format.

use vstd::prelude::*;

verus! {

/// Tag of a section node. Only a handful of these are interpreted; the rest
/// are recognised so that the decoder can tell a malformed tag from a merely
/// uninteresting one.
#[derive(Debug, PartialEq, Eq, Copy, Clone, Structural)]
pub enum SectionType {
    Struct,
    String,
    Extension,
    Camera,
    Texture,
    Material,
    MaterialList,
    AtomicSection,
    PlaneSection,
    World,
    Spline,
    Matrix,
    FrameList,
    Geometry,
    Clump,
    Light,
    UnicodeString,
    Atomic,
    Raster,
    TextureDictionary,
    AnimationDatabase,
    Image,
    SkinAnimation,
    GeometryList,
    AnimAnimation,
    Team,
    Crowd,
    DeltaMorphAnimation,
    RightToRender,
    MultiTextureEffectNative,
    MultiTextureEffectDictionary,
    TeamDictionary,
    PlatformIndependentTextureDictionary,
    TableofContents,
    ParticleStandardGlobalData,
    AltPipe,
    PlatformIndependentPeds,
    PatchMesh,
    ChunkGroupStart,
    ChunkGroupEnd,
    UVAnimationDictionary,
    CollTree,
    MetricsPLG,
    SplinePLG,
    StereoPLG,
    VRMLPLG,
    MorphPLG,
    PVSPLG,
    MemoryLeakPLG,
    AnimationPLG,
    GlossPLG,
    LogoPLG,
    MemoryInfoPLG,
    RandomPLG,
    PNGImagePLG,
    BonePLG,
    VRMLAnimPLG,
    SkyMipmapVal,
    MRMPLG,
    LODAtomicPLG,
    MEPLG,
    LightmapPLG,
    RefinePLG,
    SkinPLG,
    LabelPLG,
    ParticlesPLG,
    GeomTXPLG,
    SynthCorePLG,
    STQPPPLG,
    PartPPPLG,
    CollisionPLG,
    HAnimPLG,
    UserDataPLG,
    MaterialEffectsPLG,
    ParticleSystemPLG,
    DeltaMorphPLG,
    PatchPLG,
    TeamPLG,
    CrowdPPPLG,
    MipSplitPLG,
    AnisotropyPLG,
    GCNMaterialPLG,
    GeometricPVSPLG,
    XBOXMaterialPLG,
    MultiTexturePLG,
    ChainPLG,
    ToonPLG,
    PTankPLG,
    ParticleStandardPLG,
    PDSPLG,
    PrtAdvPLG,
    NormalMapPLG,
    ADCPLG,
    UVAnimationPLG,
    CharacterSetPLG,
    NOHSWorldPLG,
    ImportUtilPLG,
    SlerpPLG,
    OptimPLG,
    TLWorldPLG,
    DatabasePLG,
    RaytracePLG,
    RayPLG,
    LibraryPLG,
    _2DPLG,
    TileRenderPLG,
    JPEGImagePLG,
    TGAImagePLG,
    GIFImagePLG,
    QuatPLG,
    SplinePVSPLG,
    MipmapPLG,
    MipmapKPLG,
    _2DFont,
    IntersectionPLG,
    TIFFImagePLG,
    PickPLG,
    BMPImagePLG,
    RASImagePLG,
    SkinFXPLG,
    VCATPLG,
    _2DPath,
    _2DBrush,
    _2DObject,
    _2DShape,
    _2DScene,
    _2DPickRegion,
    _2DObjectString,
    _2DAnimationPLG,
    _2DAnimation,
    _2DKeyframe,
    _2DMaestro,
    Barycentric,
    PlatformIndependentTextureDictionaryTK,
    TOCTK,
    TPLTK,
    AltPipeTK,
    AnimationTK,
    SkinSplitTookit,
    CompressedKeyTK,
    GeometryConditioningPLG,
    WingPLG,
    GenericPipelineTK,
    LightmapConversionTK,
    FilesystemPLG,
    DictionaryTK,
    UVAnimationLinear,
    UVAnimationParameter,
    BinMeshPLG,
    NativeDataPLG,
    ZModelerLock,
    AtomicVisibilityDistance,
    ClumpVisibilityDistance,
    FrameVisibilityDistance,
    PipelineSet,
    TexDictionaryLink,
    SpecularMaterial,
    _2dEffect,
    ExtraVertColour,
    CollisionModel,
    GTAHAnim,
    ReflectionMaterial,
    Breakable,
    NodeName,
}

/// The tag value that stands for each known section type, and `None` for a
/// value that maps to no known type.
pub open spec fn spec_section_type_of(v: u32) -> Option<SectionType> {

    if v == 0x00000001 {
        Some(SectionType::Struct)
    } else if v == 0x00000002 {
        Some(SectionType::String)
    } else if v == 0x00000003 {
        Some(SectionType::Extension)
    } else if v == 0x00000005 {
        Some(SectionType::Camera)
    } else if v == 0x00000006 {
        Some(SectionType::Texture)
    } else if v == 0x00000007 {
        Some(SectionType::Material)
    } else if v == 0x00000008 {
        Some(SectionType::MaterialList)
    } else if v == 0x00000009 {
        Some(SectionType::AtomicSection)
    } else if v == 0x0000000A {
        Some(SectionType::PlaneSection)
    } else if v == 0x0000000B {
        Some(SectionType::World)
    } else if v == 0x0000000C {
        Some(SectionType::Spline)
    } else if v == 0x0000000D {
        Some(SectionType::Matrix)
    } else if v == 0x0000000E {
        Some(SectionType::FrameList)
    } else if v == 0x0000000F {
        Some(SectionType::Geometry)
    } else if v == 0x00000010 {
        Some(SectionType::Clump)
    } else if v == 0x00000012 {
        Some(SectionType::Light)
    } else if v == 0x00000013 {
        Some(SectionType::UnicodeString)
    } else if v == 0x00000014 {
        Some(SectionType::Atomic)
    } else if v == 0x00000015 {
        Some(SectionType::Raster)
    } else if v == 0x00000016 {
        Some(SectionType::TextureDictionary)
    } else if v == 0x00000017 {
        Some(SectionType::AnimationDatabase)
    } else if v == 0x00000018 {
        Some(SectionType::Image)
    } else if v == 0x00000019 {
        Some(SectionType::SkinAnimation)
    } else if v == 0x0000001A {
        Some(SectionType::GeometryList)
    } else if v == 0x0000001B {
        Some(SectionType::AnimAnimation)
    } else if v == 0x0000001C {
        Some(SectionType::Team)
    } else if v == 0x0000001D {
        Some(SectionType::Crowd)
    } else if v == 0x0000001E {
        Some(SectionType::DeltaMorphAnimation)
    } else if v == 0x0000001f {
        Some(SectionType::RightToRender)
    } else if v == 0x00000020 {
        Some(SectionType::MultiTextureEffectNative)
    } else if v == 0x00000021 {
        Some(SectionType::MultiTextureEffectDictionary)
    } else if v == 0x00000022 {
        Some(SectionType::TeamDictionary)
    } else if v == 0x00000023 {
        Some(SectionType::PlatformIndependentTextureDictionary)
    } else if v == 0x00000024 {
        Some(SectionType::TableofContents)
    } else if v == 0x00000025 {
        Some(SectionType::ParticleStandardGlobalData)
    } else if v == 0x00000026 {
        Some(SectionType::AltPipe)
    } else if v == 0x00000027 {
        Some(SectionType::PlatformIndependentPeds)
    } else if v == 0x00000028 {
        Some(SectionType::PatchMesh)
    } else if v == 0x00000029 {
        Some(SectionType::ChunkGroupStart)
    } else if v == 0x0000002A {
        Some(SectionType::ChunkGroupEnd)
    } else if v == 0x0000002B {
        Some(SectionType::UVAnimationDictionary)
    } else if v == 0x0000002C {
        Some(SectionType::CollTree)
    } else if v == 0x00000101 {
        Some(SectionType::MetricsPLG)
    } else if v == 0x00000102 {
        Some(SectionType::SplinePLG)
    } else if v == 0x00000103 {
        Some(SectionType::StereoPLG)
    } else if v == 0x00000104 {
        Some(SectionType::VRMLPLG)
    } else if v == 0x00000105 {
        Some(SectionType::MorphPLG)
    } else if v == 0x00000106 {
        Some(SectionType::PVSPLG)
    } else if v == 0x00000107 {
        Some(SectionType::MemoryLeakPLG)
    } else if v == 0x00000108 {
        Some(SectionType::AnimationPLG)
    } else if v == 0x00000109 {
        Some(SectionType::GlossPLG)
    } else if v == 0x0000010a {
        Some(SectionType::LogoPLG)
    } else if v == 0x0000010b {
        Some(SectionType::MemoryInfoPLG)
    } else if v == 0x0000010c {
        Some(SectionType::RandomPLG)
    } else if v == 0x0000010d {
        Some(SectionType::PNGImagePLG)
    } else if v == 0x0000010e {
        Some(SectionType::BonePLG)
    } else if v == 0x0000010f {
        Some(SectionType::VRMLAnimPLG)
    } else if v == 0x00000110 {
        Some(SectionType::SkyMipmapVal)
    } else if v == 0x00000111 {
        Some(SectionType::MRMPLG)
    } else if v == 0x00000112 {
        Some(SectionType::LODAtomicPLG)
    } else if v == 0x00000113 {
        Some(SectionType::MEPLG)
    } else if v == 0x00000114 {
        Some(SectionType::LightmapPLG)
    } else if v == 0x00000115 {
        Some(SectionType::RefinePLG)
    } else if v == 0x00000116 {
        Some(SectionType::SkinPLG)
    } else if v == 0x00000117 {
        Some(SectionType::LabelPLG)
    } else if v == 0x00000118 {
        Some(SectionType::ParticlesPLG)
    } else if v == 0x00000119 {
        Some(SectionType::GeomTXPLG)
    } else if v == 0x0000011a {
        Some(SectionType::SynthCorePLG)
    } else if v == 0x0000011b {
        Some(SectionType::STQPPPLG)
    } else if v == 0x0000011c {
        Some(SectionType::PartPPPLG)
    } else if v == 0x0000011d {
        Some(SectionType::CollisionPLG)
    } else if v == 0x0000011e {
        Some(SectionType::HAnimPLG)
    } else if v == 0x0000011f {
        Some(SectionType::UserDataPLG)
    } else if v == 0x00000120 {
        Some(SectionType::MaterialEffectsPLG)
    } else if v == 0x00000121 {
        Some(SectionType::ParticleSystemPLG)
    } else if v == 0x00000122 {
        Some(SectionType::DeltaMorphPLG)
    } else if v == 0x00000123 {
        Some(SectionType::PatchPLG)
    } else if v == 0x00000124 {
        Some(SectionType::TeamPLG)
    } else if v == 0x00000125 {
        Some(SectionType::CrowdPPPLG)
    } else if v == 0x00000126 {
        Some(SectionType::MipSplitPLG)
    } else if v == 0x00000127 {
        Some(SectionType::AnisotropyPLG)
    } else if v == 0x00000129 {
        Some(SectionType::GCNMaterialPLG)
    } else if v == 0x0000012a {
        Some(SectionType::GeometricPVSPLG)
    } else if v == 0x0000012b {
        Some(SectionType::XBOXMaterialPLG)
    } else if v == 0x0000012c {
        Some(SectionType::MultiTexturePLG)
    } else if v == 0x0000012d {
        Some(SectionType::ChainPLG)
    } else if v == 0x0000012e {
        Some(SectionType::ToonPLG)
    } else if v == 0x0000012f {
        Some(SectionType::PTankPLG)
    } else if v == 0x00000130 {
        Some(SectionType::ParticleStandardPLG)
    } else if v == 0x00000131 {
        Some(SectionType::PDSPLG)
    } else if v == 0x00000132 {
        Some(SectionType::PrtAdvPLG)
    } else if v == 0x00000133 {
        Some(SectionType::NormalMapPLG)
    } else if v == 0x00000134 {
        Some(SectionType::ADCPLG)
    } else if v == 0x00000135 {
        Some(SectionType::UVAnimationPLG)
    } else if v == 0x00000180 {
        Some(SectionType::CharacterSetPLG)
    } else if v == 0x00000181 {
        Some(SectionType::NOHSWorldPLG)
    } else if v == 0x00000182 {
        Some(SectionType::ImportUtilPLG)
    } else if v == 0x00000183 {
        Some(SectionType::SlerpPLG)
    } else if v == 0x00000184 {
        Some(SectionType::OptimPLG)
    } else if v == 0x00000185 {
        Some(SectionType::TLWorldPLG)
    } else if v == 0x00000186 {
        Some(SectionType::DatabasePLG)
    } else if v == 0x00000187 {
        Some(SectionType::RaytracePLG)
    } else if v == 0x00000188 {
        Some(SectionType::RayPLG)
    } else if v == 0x00000189 {
        Some(SectionType::LibraryPLG)
    } else if v == 0x00000190 {
        Some(SectionType::_2DPLG)
    } else if v == 0x00000191 {
        Some(SectionType::TileRenderPLG)
    } else if v == 0x00000192 {
        Some(SectionType::JPEGImagePLG)
    } else if v == 0x00000193 {
        Some(SectionType::TGAImagePLG)
    } else if v == 0x00000194 {
        Some(SectionType::GIFImagePLG)
    } else if v == 0x00000195 {
        Some(SectionType::QuatPLG)
    } else if v == 0x00000196 {
        Some(SectionType::SplinePVSPLG)
    } else if v == 0x00000197 {
        Some(SectionType::MipmapPLG)
    } else if v == 0x00000198 {
        Some(SectionType::MipmapKPLG)
    } else if v == 0x00000199 {
        Some(SectionType::_2DFont)
    } else if v == 0x0000019a {
        Some(SectionType::IntersectionPLG)
    } else if v == 0x0000019b {
        Some(SectionType::TIFFImagePLG)
    } else if v == 0x0000019c {
        Some(SectionType::PickPLG)
    } else if v == 0x0000019d {
        Some(SectionType::BMPImagePLG)
    } else if v == 0x0000019e {
        Some(SectionType::RASImagePLG)
    } else if v == 0x0000019f {
        Some(SectionType::SkinFXPLG)
    } else if v == 0x000001a0 {
        Some(SectionType::VCATPLG)
    } else if v == 0x000001a1 {
        Some(SectionType::_2DPath)
    } else if v == 0x000001a2 {
        Some(SectionType::_2DBrush)
    } else if v == 0x000001a3 {
        Some(SectionType::_2DObject)
    } else if v == 0x000001a4 {
        Some(SectionType::_2DShape)
    } else if v == 0x000001a5 {
        Some(SectionType::_2DScene)
    } else if v == 0x000001a6 {
        Some(SectionType::_2DPickRegion)
    } else if v == 0x000001a7 {
        Some(SectionType::_2DObjectString)
    } else if v == 0x000001a8 {
        Some(SectionType::_2DAnimationPLG)
    } else if v == 0x000001a9 {
        Some(SectionType::_2DAnimation)
    } else if v == 0x000001b0 {
        Some(SectionType::_2DKeyframe)
    } else if v == 0x000001b1 {
        Some(SectionType::_2DMaestro)
    } else if v == 0x000001b2 {
        Some(SectionType::Barycentric)
    } else if v == 0x000001b3 {
        Some(SectionType::PlatformIndependentTextureDictionaryTK)
    } else if v == 0x000001b4 {
        Some(SectionType::TOCTK)
    } else if v == 0x000001b5 {
        Some(SectionType::TPLTK)
    } else if v == 0x000001b6 {
        Some(SectionType::AltPipeTK)
    } else if v == 0x000001b7 {
        Some(SectionType::AnimationTK)
    } else if v == 0x000001b8 {
        Some(SectionType::SkinSplitTookit)
    } else if v == 0x000001b9 {
        Some(SectionType::CompressedKeyTK)
    } else if v == 0x000001ba {
        Some(SectionType::GeometryConditioningPLG)
    } else if v == 0x000001bb {
        Some(SectionType::WingPLG)
    } else if v == 0x000001bc {
        Some(SectionType::GenericPipelineTK)
    } else if v == 0x000001bd {
        Some(SectionType::LightmapConversionTK)
    } else if v == 0x000001be {
        Some(SectionType::FilesystemPLG)
    } else if v == 0x000001bf {
        Some(SectionType::DictionaryTK)
    } else if v == 0x000001c0 {
        Some(SectionType::UVAnimationLinear)
    } else if v == 0x000001c1 {
        Some(SectionType::UVAnimationParameter)
    } else if v == 0x0000050E {
        Some(SectionType::BinMeshPLG)
    } else if v == 0x00000510 {
        Some(SectionType::NativeDataPLG)
    } else if v == 0x0000F21E {
        Some(SectionType::ZModelerLock)
    } else if v == 0x0253F200 {
        Some(SectionType::AtomicVisibilityDistance)
    } else if v == 0x0253F201 {
        Some(SectionType::ClumpVisibilityDistance)
    } else if v == 0x0253F202 {
        Some(SectionType::FrameVisibilityDistance)
    } else if v == 0x0253F2F3 {
        Some(SectionType::PipelineSet)
    } else if v == 0x0253F2F5 {
        Some(SectionType::TexDictionaryLink)
    } else if v == 0x0253F2F6 {
        Some(SectionType::SpecularMaterial)
    } else if v == 0x0253F2F8 {
        Some(SectionType::_2dEffect)
    } else if v == 0x0253F2F9 {
        Some(SectionType::ExtraVertColour)
    } else if v == 0x0253F2FA {
        Some(SectionType::CollisionModel)
    } else if v == 0x0253F2FB {
        Some(SectionType::GTAHAnim)
    } else if v == 0x0253F2FC {
        Some(SectionType::ReflectionMaterial)
    } else if v == 0x0253F2FD {
        Some(SectionType::Breakable)
    } else if v == 0x0253F2FE {
        Some(SectionType::NodeName)
    } else {
        None
    }
}

/// Decode a raw tag. Returns `None` when the tag is not a known section type.
pub fn section_type_of(v: u32) -> (r: Option<SectionType>)
    ensures
        r == spec_section_type_of(v),
{

    if v == 0x00000001 {
        Some(SectionType::Struct)
    } else if v == 0x00000002 {
        Some(SectionType::String)
    } else if v == 0x00000003 {
        Some(SectionType::Extension)
    } else if v == 0x00000005 {
        Some(SectionType::Camera)
    } else if v == 0x00000006 {
        Some(SectionType::Texture)
    } else if v == 0x00000007 {
        Some(SectionType::Material)
    } else if v == 0x00000008 {
        Some(SectionType::MaterialList)
    } else if v == 0x00000009 {
        Some(SectionType::AtomicSection)
    } else if v == 0x0000000A {
        Some(SectionType::PlaneSection)
    } else if v == 0x0000000B {
        Some(SectionType::World)
    } else if v == 0x0000000C {
        Some(SectionType::Spline)
    } else if v == 0x0000000D {
        Some(SectionType::Matrix)
    } else if v == 0x0000000E {
        Some(SectionType::FrameList)
    } else if v == 0x0000000F {
        Some(SectionType::Geometry)
    } else if v == 0x00000010 {
        Some(SectionType::Clump)
    } else if v == 0x00000012 {
        Some(SectionType::Light)
    } else if v == 0x00000013 {
        Some(SectionType::UnicodeString)
    } else if v == 0x00000014 {
        Some(SectionType::Atomic)
    } else if v == 0x00000015 {
        Some(SectionType::Raster)
    } else if v == 0x00000016 {
        Some(SectionType::TextureDictionary)
    } else if v == 0x00000017 {
        Some(SectionType::AnimationDatabase)
    } else if v == 0x00000018 {
        Some(SectionType::Image)
    } else if v == 0x00000019 {
        Some(SectionType::SkinAnimation)
    } else if v == 0x0000001A {
        Some(SectionType::GeometryList)
    } else if v == 0x0000001B {
        Some(SectionType::AnimAnimation)
    } else if v == 0x0000001C {
        Some(SectionType::Team)
    } else if v == 0x0000001D {
        Some(SectionType::Crowd)
    } else if v == 0x0000001E {
        Some(SectionType::DeltaMorphAnimation)
    } else if v == 0x0000001f {
        Some(SectionType::RightToRender)
    } else if v == 0x00000020 {
        Some(SectionType::MultiTextureEffectNative)
    } else if v == 0x00000021 {
        Some(SectionType::MultiTextureEffectDictionary)
    } else if v == 0x00000022 {
        Some(SectionType::TeamDictionary)
    } else if v == 0x00000023 {
        Some(SectionType::PlatformIndependentTextureDictionary)
    } else if v == 0x00000024 {
        Some(SectionType::TableofContents)
    } else if v == 0x00000025 {
        Some(SectionType::ParticleStandardGlobalData)
    } else if v == 0x00000026 {
        Some(SectionType::AltPipe)
    } else if v == 0x00000027 {
        Some(SectionType::PlatformIndependentPeds)
    } else if v == 0x00000028 {
        Some(SectionType::PatchMesh)
    } else if v == 0x00000029 {
        Some(SectionType::ChunkGroupStart)
    } else if v == 0x0000002A {
        Some(SectionType::ChunkGroupEnd)
    } else if v == 0x0000002B {
        Some(SectionType::UVAnimationDictionary)
    } else if v == 0x0000002C {
        Some(SectionType::CollTree)
    } else if v == 0x00000101 {
        Some(SectionType::MetricsPLG)
    } else if v == 0x00000102 {
        Some(SectionType::SplinePLG)
    } else if v == 0x00000103 {
        Some(SectionType::StereoPLG)
    } else if v == 0x00000104 {
        Some(SectionType::VRMLPLG)
    } else if v == 0x00000105 {
        Some(SectionType::MorphPLG)
    } else if v == 0x00000106 {
        Some(SectionType::PVSPLG)
    } else if v == 0x00000107 {
        Some(SectionType::MemoryLeakPLG)
    } else if v == 0x00000108 {
        Some(SectionType::AnimationPLG)
    } else if v == 0x00000109 {
        Some(SectionType::GlossPLG)
    } else if v == 0x0000010a {
        Some(SectionType::LogoPLG)
    } else if v == 0x0000010b {
        Some(SectionType::MemoryInfoPLG)
    } else if v == 0x0000010c {
        Some(SectionType::RandomPLG)
    } else if v == 0x0000010d {
        Some(SectionType::PNGImagePLG)
    } else if v == 0x0000010e {
        Some(SectionType::BonePLG)
    } else if v == 0x0000010f {
        Some(SectionType::VRMLAnimPLG)
    } else if v == 0x00000110 {
        Some(SectionType::SkyMipmapVal)
    } else if v == 0x00000111 {
        Some(SectionType::MRMPLG)
    } else if v == 0x00000112 {
        Some(SectionType::LODAtomicPLG)
    } else if v == 0x00000113 {
        Some(SectionType::MEPLG)
    } else if v == 0x00000114 {
        Some(SectionType::LightmapPLG)
    } else if v == 0x00000115 {
        Some(SectionType::RefinePLG)
    } else if v == 0x00000116 {
        Some(SectionType::SkinPLG)
    } else if v == 0x00000117 {
        Some(SectionType::LabelPLG)
    } else if v == 0x00000118 {
        Some(SectionType::ParticlesPLG)
    } else if v == 0x00000119 {
        Some(SectionType::GeomTXPLG)
    } else if v == 0x0000011a {
        Some(SectionType::SynthCorePLG)
    } else if v == 0x0000011b {
        Some(SectionType::STQPPPLG)
    } else if v == 0x0000011c {
        Some(SectionType::PartPPPLG)
    } else if v == 0x0000011d {
        Some(SectionType::CollisionPLG)
    } else if v == 0x0000011e {
        Some(SectionType::HAnimPLG)
    } else if v == 0x0000011f {
        Some(SectionType::UserDataPLG)
    } else if v == 0x00000120 {
        Some(SectionType::MaterialEffectsPLG)
    } else if v == 0x00000121 {
        Some(SectionType::ParticleSystemPLG)
    } else if v == 0x00000122 {
        Some(SectionType::DeltaMorphPLG)
    } else if v == 0x00000123 {
        Some(SectionType::PatchPLG)
    } else if v == 0x00000124 {
        Some(SectionType::TeamPLG)
    } else if v == 0x00000125 {
        Some(SectionType::CrowdPPPLG)
    } else if v == 0x00000126 {
        Some(SectionType::MipSplitPLG)
    } else if v == 0x00000127 {
        Some(SectionType::AnisotropyPLG)
    } else if v == 0x00000129 {
        Some(SectionType::GCNMaterialPLG)
    } else if v == 0x0000012a {
        Some(SectionType::GeometricPVSPLG)
    } else if v == 0x0000012b {
        Some(SectionType::XBOXMaterialPLG)
    } else if v == 0x0000012c {
        Some(SectionType::MultiTexturePLG)
    } else if v == 0x0000012d {
        Some(SectionType::ChainPLG)
    } else if v == 0x0000012e {
        Some(SectionType::ToonPLG)
    } else if v == 0x0000012f {
        Some(SectionType::PTankPLG)
    } else if v == 0x00000130 {
        Some(SectionType::ParticleStandardPLG)
    } else if v == 0x00000131 {
        Some(SectionType::PDSPLG)
    } else if v == 0x00000132 {
        Some(SectionType::PrtAdvPLG)
    } else if v == 0x00000133 {
        Some(SectionType::NormalMapPLG)
    } else if v == 0x00000134 {
        Some(SectionType::ADCPLG)
    } else if v == 0x00000135 {
        Some(SectionType::UVAnimationPLG)
    } else if v == 0x00000180 {
        Some(SectionType::CharacterSetPLG)
    } else if v == 0x00000181 {
        Some(SectionType::NOHSWorldPLG)
    } else if v == 0x00000182 {
        Some(SectionType::ImportUtilPLG)
    } else if v == 0x00000183 {
        Some(SectionType::SlerpPLG)
    } else if v == 0x00000184 {
        Some(SectionType::OptimPLG)
    } else if v == 0x00000185 {
        Some(SectionType::TLWorldPLG)
    } else if v == 0x00000186 {
        Some(SectionType::DatabasePLG)
    } else if v == 0x00000187 {
        Some(SectionType::RaytracePLG)
    } else if v == 0x00000188 {
        Some(SectionType::RayPLG)
    } else if v == 0x00000189 {
        Some(SectionType::LibraryPLG)
    } else if v == 0x00000190 {
        Some(SectionType::_2DPLG)
    } else if v == 0x00000191 {
        Some(SectionType::TileRenderPLG)
    } else if v == 0x00000192 {
        Some(SectionType::JPEGImagePLG)
    } else if v == 0x00000193 {
        Some(SectionType::TGAImagePLG)
    } else if v == 0x00000194 {
        Some(SectionType::GIFImagePLG)
    } else if v == 0x00000195 {
        Some(SectionType::QuatPLG)
    } else if v == 0x00000196 {
        Some(SectionType::SplinePVSPLG)
    } else if v == 0x00000197 {
        Some(SectionType::MipmapPLG)
    } else if v == 0x00000198 {
        Some(SectionType::MipmapKPLG)
    } else if v == 0x00000199 {
        Some(SectionType::_2DFont)
    } else if v == 0x0000019a {
        Some(SectionType::IntersectionPLG)
    } else if v == 0x0000019b {
        Some(SectionType::TIFFImagePLG)
    } else if v == 0x0000019c {
        Some(SectionType::PickPLG)
    } else if v == 0x0000019d {
        Some(SectionType::BMPImagePLG)
    } else if v == 0x0000019e {
        Some(SectionType::RASImagePLG)
    } else if v == 0x0000019f {
        Some(SectionType::SkinFXPLG)
    } else if v == 0x000001a0 {
        Some(SectionType::VCATPLG)
    } else if v == 0x000001a1 {
        Some(SectionType::_2DPath)
    } else if v == 0x000001a2 {
        Some(SectionType::_2DBrush)
    } else if v == 0x000001a3 {
        Some(SectionType::_2DObject)
    } else if v == 0x000001a4 {
        Some(SectionType::_2DShape)
    } else if v == 0x000001a5 {
        Some(SectionType::_2DScene)
    } else if v == 0x000001a6 {
        Some(SectionType::_2DPickRegion)
    } else if v == 0x000001a7 {
        Some(SectionType::_2DObjectString)
    } else if v == 0x000001a8 {
        Some(SectionType::_2DAnimationPLG)
    } else if v == 0x000001a9 {
        Some(SectionType::_2DAnimation)
    } else if v == 0x000001b0 {
        Some(SectionType::_2DKeyframe)
    } else if v == 0x000001b1 {
        Some(SectionType::_2DMaestro)
    } else if v == 0x000001b2 {
        Some(SectionType::Barycentric)
    } else if v == 0x000001b3 {
        Some(SectionType::PlatformIndependentTextureDictionaryTK)
    } else if v == 0x000001b4 {
        Some(SectionType::TOCTK)
    } else if v == 0x000001b5 {
        Some(SectionType::TPLTK)
    } else if v == 0x000001b6 {
        Some(SectionType::AltPipeTK)
    } else if v == 0x000001b7 {
        Some(SectionType::AnimationTK)
    } else if v == 0x000001b8 {
        Some(SectionType::SkinSplitTookit)
    } else if v == 0x000001b9 {
        Some(SectionType::CompressedKeyTK)
    } else if v == 0x000001ba {
        Some(SectionType::GeometryConditioningPLG)
    } else if v == 0x000001bb {
        Some(SectionType::WingPLG)
    } else if v == 0x000001bc {
        Some(SectionType::GenericPipelineTK)
    } else if v == 0x000001bd {
        Some(SectionType::LightmapConversionTK)
    } else if v == 0x000001be {
        Some(SectionType::FilesystemPLG)
    } else if v == 0x000001bf {
        Some(SectionType::DictionaryTK)
    } else if v == 0x000001c0 {
        Some(SectionType::UVAnimationLinear)
    } else if v == 0x000001c1 {
        Some(SectionType::UVAnimationParameter)
    } else if v == 0x0000050E {
        Some(SectionType::BinMeshPLG)
    } else if v == 0x00000510 {
        Some(SectionType::NativeDataPLG)
    } else if v == 0x0000F21E {
        Some(SectionType::ZModelerLock)
    } else if v == 0x0253F200 {
        Some(SectionType::AtomicVisibilityDistance)
    } else if v == 0x0253F201 {
        Some(SectionType::ClumpVisibilityDistance)
    } else if v == 0x0253F202 {
        Some(SectionType::FrameVisibilityDistance)
    } else if v == 0x0253F2F3 {
        Some(SectionType::PipelineSet)
    } else if v == 0x0253F2F5 {
        Some(SectionType::TexDictionaryLink)
    } else if v == 0x0253F2F6 {
        Some(SectionType::SpecularMaterial)
    } else if v == 0x0253F2F8 {
        Some(SectionType::_2dEffect)
    } else if v == 0x0253F2F9 {
        Some(SectionType::ExtraVertColour)
    } else if v == 0x0253F2FA {
        Some(SectionType::CollisionModel)
    } else if v == 0x0253F2FB {
        Some(SectionType::GTAHAnim)
    } else if v == 0x0253F2FC {
        Some(SectionType::ReflectionMaterial)
    } else if v == 0x0253F2FD {
        Some(SectionType::Breakable)
    } else if v == 0x0253F2FE {
        Some(SectionType::NodeName)
    } else {
        None
    }
}


/// Texture filtering mode of a texture reference or raster.
#[derive(Debug, PartialEq, Eq, Copy, Clone, Structural)]
pub enum TextureFiltering {
    /// Filtering is disabled.
    NaFilterMode,
    /// Point sampled.
    Nearest,
    /// Bilinear.
    Linear,
    /// Point sampled per pixel mip map.
    MipNearest,
    /// Bilinear per pixel mipmap.
    MipLinear,
    /// Mipmap interpolation, point sampled.
    LinearMipNearest,
    /// Trilinear.
    LinearMipLinear,
}

/// The filtering mode that stands for each raw value, `None` outside `0..=6`.
pub open spec fn spec_texture_filtering_of(v: u8) -> Option<TextureFiltering> {
    if v == 0 {
        Some(TextureFiltering::NaFilterMode)
    } else if v == 1 {
        Some(TextureFiltering::Nearest)
    } else if v == 2 {
        Some(TextureFiltering::Linear)
    } else if v == 3 {
        Some(TextureFiltering::MipNearest)
    } else if v == 4 {
        Some(TextureFiltering::MipLinear)
    } else if v == 5 {
        Some(TextureFiltering::LinearMipNearest)
    } else if v == 6 {
        Some(TextureFiltering::LinearMipLinear)
    } else {
        None
    }
}

pub fn texture_filtering_of(v: u8) -> (r: Option<TextureFiltering>)
    ensures
        r == spec_texture_filtering_of(v),
{
    if v == 0 {
        Some(TextureFiltering::NaFilterMode)
    } else if v == 1 {
        Some(TextureFiltering::Nearest)
    } else if v == 2 {
        Some(TextureFiltering::Linear)
    } else if v == 3 {
        Some(TextureFiltering::MipNearest)
    } else if v == 4 {
        Some(TextureFiltering::MipLinear)
    } else if v == 5 {
        Some(TextureFiltering::LinearMipNearest)
    } else if v == 6 {
        Some(TextureFiltering::LinearMipLinear)
    } else {
        None
    }
}

/// How texture coordinates outside `0..1` are treated in one axis.
#[derive(Debug, PartialEq, Eq, Copy, Clone, Structural)]
pub enum TextureAddressing {
    /// No tiling.
    NoTiling,
    /// Tile in the U or V direction.
    Wrap,
    /// Mirror in the U or V direction.
    Mirror,
    Clamp,
    Border,
}

/// The addressing mode that stands for each raw value, `None` outside `0..=4`.
pub open spec fn spec_texture_addressing_of(v: u8) -> Option<TextureAddressing> {
    if v == 0 {
        Some(TextureAddressing::NoTiling)
    } else if v == 1 {
        Some(TextureAddressing::Wrap)
    } else if v == 2 {
        Some(TextureAddressing::Mirror)
    } else if v == 3 {
        Some(TextureAddressing::Clamp)
    } else if v == 4 {
        Some(TextureAddressing::Border)
    } else {
        None
    }
}

pub fn texture_addressing_of(v: u8) -> (r: Option<TextureAddressing>)
    ensures
        r == spec_texture_addressing_of(v),
{
    if v == 0 {
        Some(TextureAddressing::NoTiling)
    } else if v == 1 {
        Some(TextureAddressing::Wrap)
    } else if v == 2 {
        Some(TextureAddressing::Mirror)
    } else if v == 3 {
        Some(TextureAddressing::Clamp)
    } else if v == 4 {
        Some(TextureAddressing::Border)
    } else {
        None
    }
}

/// Pixel layout scheme encoded in a raster's format word.
#[derive(Debug, PartialEq, Eq, Copy, Clone, Structural)]
pub enum RasterFormatScheme {
    /// 1 bit alpha, RGB 5 bits each; also used for DXT1 with alpha.
    C1555,
    /// 5 bits red, 6 bits green, 5 bits blue; also used for DXT1 without alpha.
    C565,
    /// RGBA 4 bits each; also used for DXT3.
    C4444,
    /// Gray scale.
    Lum8,
    /// RGBA 8 bits each.
    C8888,
    /// RGB 8 bits each.
    C888,
    /// RGB 5 bits each; rare.
    C555,
}

pub const FMT_1555: u32 = 0x0100;

pub const FMT_565: u32 = 0x0200;

pub const FMT_4444: u32 = 0x0300;

pub const FMT_LUM8: u32 = 0x0400;

pub const FMT_8888: u32 = 0x0500;

pub const FMT_888: u32 = 0x0600;

pub const FMT_555: u32 = 0x0A00;

/// RW generates mipmaps.
pub const FMT_EXT_AUTO_MIPMAP: u32 = 0x1000;

/// 2^8 = 256 palette colors.
pub const FMT_EXT_PAL8: u32 = 0x2000;

/// 2^4 = 16 palette colors.
pub const FMT_EXT_PAL4: u32 = 0x4000;

/// Mipmaps included.
pub const FMT_EXT_MIPMAP: u32 = 0x8000;

/// A raster's format word: pixel scheme, palette and mipmap bits.
#[derive(Debug, PartialEq, Eq, Copy, Clone, Structural)]
pub struct RasterFormat {
    pub bits: u32,
}

/// True when at least one of the scheme bit groups is set, so that `scheme`
/// has a value to report.
pub open spec fn spec_has_scheme(bits: u32) -> bool {
    (bits & FMT_1555 != 0) || (bits & FMT_565 != 0) || (bits & FMT_4444 != 0) || (bits & FMT_LUM8
        != 0) || (bits & FMT_8888 != 0) || (bits & FMT_888 != 0) || (bits & FMT_555 != 0)
}

/// The scheme reported for a format word: the first group, in the fixed order
/// below, whose bits are set.
pub open spec fn spec_scheme_of(bits: u32) -> RasterFormatScheme
    recommends
        spec_has_scheme(bits),
{
    if bits & FMT_1555 != 0 {
        RasterFormatScheme::C1555
    } else if bits & FMT_565 != 0 {
        RasterFormatScheme::C565
    } else if bits & FMT_4444 != 0 {
        RasterFormatScheme::C4444
    } else if bits & FMT_LUM8 != 0 {
        RasterFormatScheme::Lum8
    } else if bits & FMT_8888 != 0 {
        RasterFormatScheme::C8888
    } else if bits & FMT_888 != 0 {
        RasterFormatScheme::C888
    } else {
        RasterFormatScheme::C555
    }
}

/// Number of palette colors the format word announces: 256, 16 or 0.
pub open spec fn spec_palette_color_count(bits: u32) -> u16 {
    if bits & FMT_EXT_PAL8 != 0 {
        256
    } else if bits & FMT_EXT_PAL4 != 0 {
        16
    } else {
        0
    }
}

/// Whether a format word carries a pixel scheme.
pub fn has_scheme(bits: u32) -> (r: bool)
    ensures
        r == spec_has_scheme(bits),
{
    (bits & FMT_1555 != 0) || (bits & FMT_565 != 0) || (bits & FMT_4444 != 0) || (bits & FMT_LUM8
        != 0) || (bits & FMT_8888 != 0) || (bits & FMT_888 != 0) || (bits & FMT_555 != 0)
}

impl RasterFormat {
    pub fn new(bits: u32) -> (r: RasterFormat)
        ensures
            r.bits == bits,
    {
        RasterFormat { bits }
    }

    /// The pixel scheme of the format word. The decoder rejects rasters
    /// whose format word has no scheme bits, so a decoded raster's format
    /// always has one.
    pub fn scheme(&self) -> (r: RasterFormatScheme)
        requires
            spec_has_scheme(self.bits),
        ensures
            r == spec_scheme_of(self.bits),
    {
        if self.bits & FMT_1555 != 0 {
            RasterFormatScheme::C1555
        } else if self.bits & FMT_565 != 0 {
            RasterFormatScheme::C565
        } else if self.bits & FMT_4444 != 0 {
            RasterFormatScheme::C4444
        } else if self.bits & FMT_LUM8 != 0 {
            RasterFormatScheme::Lum8
        } else if self.bits & FMT_8888 != 0 {
            RasterFormatScheme::C8888
        } else if self.bits & FMT_888 != 0 {
            RasterFormatScheme::C888
        } else {
            RasterFormatScheme::C555
        }
    }

    /// Whether the format word asks for generated mipmaps.
    pub fn auto_mipmap(&self) -> (r: bool)
        ensures
            r == (self.bits & FMT_EXT_AUTO_MIPMAP != 0),
    {
        self.bits & FMT_EXT_AUTO_MIPMAP != 0
    }

    /// Whether the format word announces included mipmaps.
    pub fn mipmap_included(&self) -> (r: bool)
        ensures
            r == (self.bits & FMT_EXT_MIPMAP != 0),
    {
        self.bits & FMT_EXT_MIPMAP != 0
    }

    pub fn palette_color_count(&self) -> (r: u16)
        ensures
            r == spec_palette_color_count(self.bits),
    {
        if self.bits & FMT_EXT_PAL8 != 0 {
            256
        } else if self.bits & FMT_EXT_PAL4 != 0 {
            16
        } else {
            0
        }
    }
}

pub const GF_TRI_STRIP: u32 = 0x0001;

pub const GF_POSITIONS: u32 = 0x0002;

pub const GF_TEXTURED: u32 = 0x0004;

pub const GF_PRELIT: u32 = 0x0008;

pub const GF_NORMALS: u32 = 0x0010;

pub const GF_LIGHT: u32 = 0x0020;

pub const GF_MODULATE_MATERIAL_COLOR: u32 = 0x0040;

pub const GF_TEXTURED2: u32 = 0x0080;

/// Native (platform-specific) geometry payload; such a payload is not
/// decoded, the geometry then carries no triangle data.
pub const GF_NATIVE: u32 = 0x0100_0000;

/// A geometry's format flags, restricted to the low 16 bits of the raw word.
#[derive(Debug, PartialEq, Eq, Copy, Clone, Structural)]
pub struct GeometryFormat {
    pub bits: u32,
}

/// True when the low 16 bits of the raw format word hold only known flags.
pub open spec fn spec_geometry_format_valid(low: u32) -> bool {
    low & 0xFF00 == 0
}

impl GeometryFormat {
    pub fn is_tri_strip(&self) -> (r: bool)
        ensures
            r == (self.bits & GF_TRI_STRIP != 0),
    {
        self.bits & GF_TRI_STRIP != 0
    }

    pub fn is_prelit(&self) -> (r: bool)
        ensures
            r == (self.bits & GF_PRELIT != 0),
    {
        self.bits & GF_PRELIT != 0
    }
}

} // verus!
