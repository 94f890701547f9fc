//! The fixed texts of a C++ project.
use vstd::prelude::*;

verus! {

/// The entry point of the library.
pub const TEMPLATE_DLLMAIN_CPP: &'static str = r#"// Generated C++ file by Il2CppDumper - Rust Edition
// DLL entry point

#define WIN32_LEAN_AND_MEAN
#include <windows.h>
#include "il2cpp-init.h"
#include "main.h"

BOOL APIENTRY DllMain( HMODULE hModule,
                       DWORD  ul_reason_for_call,
                       LPVOID lpReserved
                     )
{
    switch (ul_reason_for_call)
    {
    case DLL_PROCESS_ATTACH:
        init_il2cpp();
        CreateThread(NULL, 0, (LPTHREAD_START_ROUTINE) Run, NULL, 0, NULL);
        break;
    case DLL_THREAD_ATTACH:
    case DLL_THREAD_DETACH:
    case DLL_PROCESS_DETACH:
        break;
    }
    return TRUE;
}
"#;

/// The helper functions.
pub const TEMPLATE_HELPERS_CPP: &'static str = r#"// Generated C++ file by Il2CppDumper - Rust Edition
// Helper functions

#include "pch-il2cpp.h"

#define WIN32_LEAN_AND_MEAN
#include <windows.h>
#include <string>
#include <codecvt>
#include "helpers.h"

extern const LPCWSTR LOG_FILE;

uintptr_t il2cppi_get_base_address() {
    return (uintptr_t) GetModuleHandleW(L"GameAssembly.dll");
}

void il2cppi_log_write(std::string text) {
    HANDLE hfile = CreateFileW(LOG_FILE, FILE_APPEND_DATA, FILE_SHARE_READ, NULL, OPEN_ALWAYS, FILE_ATTRIBUTE_NORMAL, NULL);
    if (hfile == INVALID_HANDLE_VALUE)
        MessageBoxW(0, L"Could not open log file", 0, 0);
    DWORD written;
    WriteFile(hfile, text.c_str(), (DWORD) text.length(), &written, NULL);
    WriteFile(hfile, "\r\n", 2, &written, NULL);
    CloseHandle(hfile);
}

void il2cppi_new_console() {
    AllocConsole();
    freopen_s((FILE**) stdout, "CONOUT$", "w", stdout);
}

#if _MSC_VER >= 1920
std::string il2cppi_to_string(Il2CppString* str) {
    std::u16string u16(reinterpret_cast<const char16_t*>(str->chars));
    return std::wstring_convert<std::codecvt_utf8_utf16<char16_t>, char16_t>{}.to_bytes(u16);
}

std::string il2cppi_to_string(app::String* str) {
    return il2cppi_to_string(reinterpret_cast<Il2CppString*>(str));
}
#endif
"#;

/// The declarations of the helper functions.
pub const TEMPLATE_HELPERS_H: &'static str = r#"// Generated C++ file by Il2CppDumper - Rust Edition
// Helper functions

#pragma once

#include <string>
#include <sstream>
#include <iomanip>

#include "il2cpp-metadata-version.h"

uintptr_t il2cppi_get_base_address();
void il2cppi_log_write(std::string text);
void il2cppi_new_console();

#if _MSC_VER >= 1920
std::string il2cppi_to_string(Il2CppString* str);
std::string il2cppi_to_string(app::String* str);
#endif

template<typename T> bool il2cppi_is_initialized(T* metadataItem) {
#if __IL2CPP_METADATA_VERSION < 270
    return *metadataItem != 0;
#else
    return !((uintptr_t) *metadataItem & 1);
#endif
}

template<typename T> std::string to_hex_string(T i) {
    std::stringstream stream;
    stream << "0x" << std::setfill('0') << std::setw(sizeof(T) * 2) << std::hex << i;
    return stream.str();
}
"#;

/// The declarations of what is found in the application.
pub const TEMPLATE_IL2CPP_APPDATA_H: &'static str = r#"// Generated C++ file by Il2CppDumper - Rust Edition
// IL2CPP application data

#pragma once

#include <cstdint>

#include "il2cpp-types.h"
#include "il2cpp-api-functions-ptr.h"

#define DO_API(r, n, p) extern r (*n) p
#include "il2cpp-api-functions.h"
#undef DO_API

#define DO_APP_FUNC(a, r, n, p) extern r (*n) p
#define DO_APP_FUNC_METHODINFO(a, n) extern struct MethodInfo ** n
namespace app {
    #include "il2cpp-functions.h"
}
#undef DO_APP_FUNC
#undef DO_APP_FUNC_METHODINFO

#define DO_TYPEDEF(a, n) extern n ## __Class** n ## __TypeInfo
namespace app {
    #include "il2cpp-types-ptr.h"
}
#undef DO_TYPEDEF
"#;

/// The definitions of what is found in the application.
pub const TEMPLATE_IL2CPP_INIT_CPP: &'static str = r#"// Generated C++ file by Il2CppDumper - Rust Edition
// IL2CPP application initializer

#include "pch-il2cpp.h"

#include "il2cpp-appdata.h"
#include "il2cpp-init.h"
#include "helpers.h"

#define DO_API(r, n, p) r (*n) p
#include "il2cpp-api-functions.h"
#undef DO_API

#define DO_APP_FUNC(a, r, n, p) r (*n) p
#define DO_APP_FUNC_METHODINFO(a, n) struct MethodInfo ** n
namespace app {
#include "il2cpp-functions.h"
}
#undef DO_APP_FUNC
#undef DO_APP_FUNC_METHODINFO

#define DO_TYPEDEF(a, n) n ## __Class** n ## __TypeInfo
namespace app {
#include "il2cpp-types-ptr.h"
}
#undef DO_TYPEDEF

void init_il2cpp()
{
    uintptr_t baseAddress = il2cppi_get_base_address();

    using namespace app;

    #define DO_API(r, n, p) n = (r (*) p)(baseAddress + n ## _ptr)
    #include "il2cpp-api-functions.h"
    #undef DO_API

    #define DO_APP_FUNC(a, r, n, p) n = (r (*) p)(baseAddress + a)
    #define DO_APP_FUNC_METHODINFO(a, n) n = (struct MethodInfo **)(baseAddress + a)
    #include "il2cpp-functions.h"
    #undef DO_APP_FUNC
    #undef DO_APP_FUNC_METHODINFO

    #define DO_TYPEDEF(a, n) n ## __TypeInfo = (n ## __Class**) (baseAddress + a);
    #include "il2cpp-types-ptr.h"
    #undef DO_TYPEDEF
}
"#;

/// The declaration of the initializer.
pub const TEMPLATE_IL2CPP_INIT_H: &'static str = r#"// Generated C++ file by Il2CppDumper - Rust Edition
// IL2CPP application initializer

#pragma once

void init_il2cpp();
"#;

/// The source of the precompiled header.
pub const TEMPLATE_PCH_IL2CPP_CPP: &'static str = r#"// pch.cpp: source file corresponding to the pre-compiled header

#include "pch-il2cpp.h"
"#;

/// The precompiled header.
pub const TEMPLATE_PCH_IL2CPP_H: &'static str = r#"// pch.h: This is a precompiled header file.

#ifndef PCH_IL2CPP_H
#define PCH_IL2CPP_H

#endif
"#;

/// The code of the user.
pub const TEMPLATE_MAIN_CPP: &'static str = r#"// Generated C++ file by Il2CppDumper - Rust Edition
// Custom injected code entry point

#include "pch-il2cpp.h"

#define WIN32_LEAN_AND_MEAN
#include <Windows.h>
#include <iostream>
#include "il2cpp-appdata.h"
#include "helpers.h"

using namespace app;

extern const LPCWSTR LOG_FILE = L"il2cpp-log.txt";

void Run()
{
    il2cpp_thread_attach(il2cpp_domain_get());
}
"#;

/// The declarations of the user.
pub const TEMPLATE_MAIN_H: &'static str = r#"// Generated C++ file by Il2CppDumper - Rust Edition
// Custom injected code entry point

#pragma once

void Run();
"#;

/// The project.
pub const TEMPLATE_VCXPROJ: &'static str = r#"<?xml version="1.0" encoding="utf-8"?>
<Project DefaultTargets="Build" xmlns="http://schemas.microsoft.com/developer/msbuild/2003">
  <ItemGroup Label="ProjectConfigurations">
    <ProjectConfiguration Include="Debug|x64">
      <Configuration>Debug</Configuration>
      <Platform>x64</Platform>
    </ProjectConfiguration>
    <ProjectConfiguration Include="Release|x64">
      <Configuration>Release</Configuration>
      <Platform>x64</Platform>
    </ProjectConfiguration>
  </ItemGroup>
  <PropertyGroup Label="Globals">
    <VCProjectVersion>16.0</VCProjectVersion>
    <ProjectGuid>{%PROJECTGUID%}</ProjectGuid>
    <RootNamespace>IL2CppDLL</RootNamespace>
    <WindowsTargetPlatformVersion>10.0</WindowsTargetPlatformVersion>
  </PropertyGroup>
  <Import Project="$(VCTargetsPath)\Microsoft.Cpp.Default.props" />
  <PropertyGroup Condition="'$(Configuration)|$(Platform)'=='Release|x64'" Label="Configuration">
    <ConfigurationType>DynamicLibrary</ConfigurationType>
    <UseDebugLibraries>false</UseDebugLibraries>
    <PlatformToolset>v143</PlatformToolset>
    <WholeProgramOptimization>true</WholeProgramOptimization>
    <CharacterSet>Unicode</CharacterSet>
  </PropertyGroup>
  <PropertyGroup Condition="'$(Configuration)|$(Platform)'=='Debug|x64'" Label="Configuration">
    <ConfigurationType>DynamicLibrary</ConfigurationType>
    <UseDebugLibraries>true</UseDebugLibraries>
    <PlatformToolset>v143</PlatformToolset>
    <CharacterSet>Unicode</CharacterSet>
  </PropertyGroup>
  <Import Project="$(VCTargetsPath)\Microsoft.Cpp.props" />
  <ItemDefinitionGroup>
    <ClCompile>
      <PrecompiledHeader>Use</PrecompiledHeader>
      <PrecompiledHeaderFile>pch-il2cpp.h</PrecompiledHeaderFile>
      <LanguageStandard>stdcpp17</LanguageStandard>
      <AdditionalIncludeDirectories>framework;appdata;user;%(AdditionalIncludeDirectories)</AdditionalIncludeDirectories>
    </ClCompile>
  </ItemDefinitionGroup>
  <ItemGroup>
    <ClInclude Include="appdata\il2cpp-types.h" />
    <ClInclude Include="appdata\il2cpp-types-ptr.h" />
    <ClInclude Include="appdata\il2cpp-functions.h" />
    <ClInclude Include="appdata\il2cpp-api-functions.h" />
    <ClInclude Include="appdata\il2cpp-api-functions-ptr.h" />
    <ClInclude Include="appdata\il2cpp-metadata-version.h" />
    <ClInclude Include="framework\helpers.h" />
    <ClInclude Include="framework\il2cpp-appdata.h" />
    <ClInclude Include="framework\il2cpp-init.h" />
    <ClInclude Include="framework\pch-il2cpp.h" />
    <ClInclude Include="user\main.h" />
  </ItemGroup>
  <ItemGroup>
    <ClCompile Include="framework\dllmain.cpp" />
    <ClCompile Include="framework\helpers.cpp" />
    <ClCompile Include="framework\il2cpp-init.cpp" />
    <ClCompile Include="framework\pch-il2cpp.cpp">
      <PrecompiledHeader>Create</PrecompiledHeader>
    </ClCompile>
    <ClCompile Include="user\main.cpp" />
  </ItemGroup>
  <Import Project="$(VCTargetsPath)\Microsoft.Cpp.targets" />
</Project>
"#;

/// The filters of the project.
pub const TEMPLATE_VCXPROJ_FILTERS: &'static str = r#"<?xml version="1.0" encoding="utf-8"?>
<Project ToolsVersion="4.0" xmlns="http://schemas.microsoft.com/developer/msbuild/2003">
  <ItemGroup>
    <Filter Include="appdata">
      <UniqueIdentifier>{%GUID1%}</UniqueIdentifier>
    </Filter>
    <Filter Include="framework">
      <UniqueIdentifier>{%GUID2%}</UniqueIdentifier>
    </Filter>
    <Filter Include="user">
      <UniqueIdentifier>{%GUID3%}</UniqueIdentifier>
    </Filter>
  </ItemGroup>
  <ItemGroup>
    <ClInclude Include="appdata\il2cpp-types.h"><Filter>appdata</Filter></ClInclude>
    <ClInclude Include="appdata\il2cpp-types-ptr.h"><Filter>appdata</Filter></ClInclude>
    <ClInclude Include="appdata\il2cpp-functions.h"><Filter>appdata</Filter></ClInclude>
    <ClInclude Include="appdata\il2cpp-api-functions.h"><Filter>appdata</Filter></ClInclude>
    <ClInclude Include="appdata\il2cpp-api-functions-ptr.h"><Filter>appdata</Filter></ClInclude>
    <ClInclude Include="appdata\il2cpp-metadata-version.h"><Filter>appdata</Filter></ClInclude>
    <ClInclude Include="framework\helpers.h"><Filter>framework</Filter></ClInclude>
    <ClInclude Include="framework\il2cpp-appdata.h"><Filter>framework</Filter></ClInclude>
    <ClInclude Include="framework\il2cpp-init.h"><Filter>framework</Filter></ClInclude>
    <ClInclude Include="framework\pch-il2cpp.h"><Filter>framework</Filter></ClInclude>
    <ClInclude Include="user\main.h"><Filter>user</Filter></ClInclude>
  </ItemGroup>
  <ItemGroup>
    <ClCompile Include="framework\dllmain.cpp"><Filter>framework</Filter></ClCompile>
    <ClCompile Include="framework\helpers.cpp"><Filter>framework</Filter></ClCompile>
    <ClCompile Include="framework\il2cpp-init.cpp"><Filter>framework</Filter></ClCompile>
    <ClCompile Include="framework\pch-il2cpp.cpp"><Filter>framework</Filter></ClCompile>
    <ClCompile Include="user\main.cpp"><Filter>user</Filter></ClCompile>
  </ItemGroup>
</Project>
"#;

/// The solution.
pub const TEMPLATE_SLN: &'static str = r#"Microsoft Visual Studio Solution File, Format Version 12.00
# Visual Studio Version 17
Project("{8BC9CEB8-8B4A-11D0-8D11-00A0C91BC942}") = "%PROJECTNAME%", "%PROJECTFILE%", "{%PROJECTGUID%}"
EndProject
Global
    GlobalSection(SolutionConfigurationPlatforms) = preSolution
        Debug|x64 = Debug|x64
        Release|x64 = Release|x64
    EndGlobalSection
    GlobalSection(ProjectConfigurationPlatforms) = postSolution
        {%PROJECTGUID%}.Debug|x64.ActiveCfg = Debug|x64
        {%PROJECTGUID%}.Debug|x64.Build.0 = Debug|x64
        {%PROJECTGUID%}.Release|x64.ActiveCfg = Release|x64
        {%PROJECTGUID%}.Release|x64.Build.0 = Release|x64
    EndGlobalSection
    GlobalSection(SolutionProperties) = preSolution
        HideSolutionNode = FALSE
    EndGlobalSection
    GlobalSection(ExtensibilityGlobals) = postSolution
        SolutionGuid = {%SOLUTIONGUID%}
    EndGlobalSection
EndGlobal
"#;

/// The beginning of the header with the functions.
pub const FUNCTIONS_HEAD: &'static str = r#"// IL2CPP Function Pointers
// Generated by Il2CppDumper - Rust Edition
//
// Usage: #include this file after setting il2cpp_base to the base address
// of libil2cpp.so in memory.

#pragma once

#ifndef DO_APP_FUNC
#define DO_APP_FUNC(offset, rettype, name, args) \
    typedef rettype (*name##_t) args; \
    static name##_t name = (name##_t)(il2cpp_base + offset);
#endif

#ifndef DO_APP_FUNC_METHODINFO
#define DO_APP_FUNC_METHODINFO(offset, name) \
    static struct MethodInfo** name = (struct MethodInfo**)(il2cpp_base + offset);
#endif

// ******************************************************************************
// * Application method definitions
// ******************************************************************************

"#;

/// The beginning of the header with the types, up to the sizes of pointers.
pub const TYPES_HEAD: &'static str = r#"// Generated C++ file by Il2CppDumper - Rust Edition

#pragma once

#if defined(_IDACLANG_) || defined(_BINARYNINJA_)
#define IS_LIBCLANG_DECOMPILER
#endif

#if defined(_GHIDRA_) || defined(_IDA_) || defined(IS_LIBCLANG_DECOMPILER)
#define IS_DECOMPILER
#endif

#if defined(_GHIDRA_) || defined(_IDA_)
typedef unsigned __int8 uint8_t;
typedef unsigned __int16 uint16_t;
typedef unsigned __int32 uint32_t;
typedef unsigned __int64 uint64_t;
typedef __int8 int8_t;
typedef __int16 int16_t;
typedef __int32 int32_t;
typedef __int64 int64_t;
#endif

#if defined(IS_LIBCLANG_DECOMPILER)
typedef unsigned char uint8_t;
typedef unsigned short uint16_t;
typedef unsigned int uint32_t;
typedef unsigned long uint64_t;
typedef char int8_t;
typedef short int16_t;
typedef int int32_t;
typedef long int64_t;

#ifdef linux
#undef linux
#endif
#endif

#if defined(_GHIDRA_) || defined(IS_LIBCLANG_DECOMPILER)
"#;

/// What follows the sizes of pointers in the header with the types.
pub const TYPES_MIDDLE: &'static str = r#"#endif

#ifndef IS_DECOMPILER
#define _CPLUSPLUS_
#endif

// ******************************************************************************
// * IL2CPP internal types
// ******************************************************************************

"#;

/// The end of the header with the types.
pub const TYPES_TAIL: &'static str = r#"
#ifndef IS_DECOMPILER
namespace app {
#endif

// Application types are emitted through il2cpp.h (#include "../../il2cpp.h") separately.

#ifndef IS_DECOMPILER
}
#endif
"#;

} // verus!
